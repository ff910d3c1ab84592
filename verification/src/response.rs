//! Response shapes: families with their requirements and security
//! requirements, dataset summaries and paginated lists.

use vstd::prelude::*;

use crate::model::{Document, DocumentView};
use crate::poam::{PoamValidation, PoamValidationView};
use crate::scoring::{RequirementScore, RequirementScoreView};
use crate::scoring::opt_string_view;

verus! {

/// The view of an optional score.
pub open spec fn opt_score_view(s: Option<RequirementScore>) -> Option<RequirementScoreView> {
    match s {
        Some(v) => Some(v@),
        None => None,
    }
}

/// The view of an optional validation.
pub open spec fn opt_validation_view(v: Option<PoamValidation>) -> Option<PoamValidationView> {
    match v {
        Some(x) => Some(x@),
        None => None,
    }
}

/// A security requirement with its discussion and assessment text.
#[derive(Debug, Clone)]
pub struct SecurityRequirement {
    pub identifier: String,
    pub title: String,
    pub text: String,
    pub discussion: Option<String>,
    pub assessment: Option<String>,
    /// CMMC scoring information of the parent requirement, if any.
    pub score: Option<RequirementScore>,
    /// POA&M eligibility of the parent requirement, if any.
    pub poam_validation: Option<PoamValidation>,
}

/// Abstract value of a [`SecurityRequirement`].
pub struct SecurityRequirementView {
    pub identifier: Seq<char>,
    pub title: Seq<char>,
    pub text: Seq<char>,
    pub discussion: Option<Seq<char>>,
    pub assessment: Option<Seq<char>>,
    pub score: Option<RequirementScoreView>,
    pub poam_validation: Option<PoamValidationView>,
}

impl View for SecurityRequirement {
    type V = SecurityRequirementView;

    open spec fn view(&self) -> SecurityRequirementView {
        SecurityRequirementView {
            identifier: self.identifier@,
            title: self.title@,
            text: self.text@,
            discussion: opt_string_view(self.discussion),
            assessment: opt_string_view(self.assessment),
            score: opt_score_view(self.score),
            poam_validation: opt_validation_view(self.poam_validation),
        }
    }
}

/// The views of a list of security requirements.
pub open spec fn security_requirements_view(v: Seq<SecurityRequirement>) -> Seq<SecurityRequirementView> {
    v.map_values(|s: SecurityRequirement| s@)
}

/// A requirement with its security requirements.
#[derive(Debug, Clone)]
pub struct Requirement {
    pub identifier: String,
    pub title: String,
    pub text: String,
    pub security_requirements: Vec<SecurityRequirement>,
    /// CMMC scoring information, if any.
    pub score: Option<RequirementScore>,
    /// POA&M eligibility, if any.
    pub poam_validation: Option<PoamValidation>,
}

/// Abstract value of a [`Requirement`].
pub struct RequirementView {
    pub identifier: Seq<char>,
    pub title: Seq<char>,
    pub text: Seq<char>,
    pub security_requirements: Seq<SecurityRequirementView>,
    pub score: Option<RequirementScoreView>,
    pub poam_validation: Option<PoamValidationView>,
}

impl View for Requirement {
    type V = RequirementView;

    open spec fn view(&self) -> RequirementView {
        RequirementView {
            identifier: self.identifier@,
            title: self.title@,
            text: self.text@,
            security_requirements: security_requirements_view(self.security_requirements@),
            score: opt_score_view(self.score),
            poam_validation: opt_validation_view(self.poam_validation),
        }
    }
}

/// The views of a list of requirements.
pub open spec fn requirements_view(v: Seq<Requirement>) -> Seq<RequirementView> {
    v.map_values(|r: Requirement| r@)
}

/// A family with its nested requirements.
#[derive(Debug, Clone)]
pub struct Family {
    pub identifier: String,
    pub title: String,
    pub requirements: Vec<Requirement>,
}

/// Abstract value of a [`Family`].
pub struct FamilyView {
    pub identifier: Seq<char>,
    pub title: Seq<char>,
    pub requirements: Seq<RequirementView>,
}

impl View for Family {
    type V = FamilyView;

    open spec fn view(&self) -> FamilyView {
        FamilyView {
            identifier: self.identifier@,
            title: self.title@,
            requirements: requirements_view(self.requirements@),
        }
    }
}

/// The views of a list of families.
pub open spec fn families_view(v: Seq<Family>) -> Seq<FamilyView> {
    v.map_values(|f: Family| f@)
}

/// Summary statistics for a document.
#[derive(Debug, Clone)]
pub struct DataSummary {
    pub document: Document,
    pub family_count: usize,
    pub requirement_count: usize,
    pub security_requirement_count: usize,
    pub relationship_count: usize,
}

/// Paginated response wrapper.
#[derive(Debug, Clone)]
pub struct PaginatedResponse<T> {
    pub data: Vec<T>,
    pub total: usize,
    pub limit: usize,
    pub offset: usize,
    pub has_more: bool,
}

} // verus!
