//! POA&M (Plan of Action and Milestones) eligibility of NIST SP 800-171
//! requirements at CMMC Level 2 assessment time, per 32 CFR §170.21(a)(2)
//! and the DoD Assessment Methodology weights:
//! - only 1-point requirements may go on a POA&M, except the excluded
//!   one-pointers of §170.21(a)(2)(iii) and the system security plan;
//! - multifactor authentication (03.05.03) is never eligible;
//! - FIPS-validated cryptography (03.13.11) is eligible only in its partially
//!   implemented state;
//! - every 3- and 5-point requirement must be met at assessment time;
//! - POA&M items close out within 180 days.

use vstd::prelude::*;

use crate::annex::annex_rows;
use crate::scoring::{insert_all, lemma_normalize_idempotent, 
    normalize_requirement_id, normalize_spec, score_of, RequirementScore, RequirementScoreView,
    ScoreTable, ScoringDatabase,
};
use crate::order::{lex_sorted, sort_strings, strings_view};
use crate::text::{concat2, decimal, push_decimal, str_eq};

verus! {

/// POA&M eligibility status.
#[derive(Debug, Clone, Copy, PartialEq, Eq, Structural)]
pub enum PoamEligibility {
    /// Can be added to a POA&M.
    Eligible,
    /// Cannot be added to a POA&M.
    NotEligible,
    /// Can be added with conditions or restrictions.
    Conditional,
}

/// Reason why a requirement cannot be added to a POA&M.
#[derive(Debug, Clone, Copy, PartialEq, Eq, Structural)]
pub enum IneligibilityReason {
    /// Foundational requirement, to be implemented immediately.
    FoundationalRequirement,
    /// Critical security control that cannot be deferred.
    CriticalControl,
    /// Level 1 requirement, for which no POA&M is allowed.
    Level1Requirement,
    /// High-priority requirement with no deferral option.
    HighPriorityNoDeferral,
    /// 3- or 5-point requirement, which must be met at assessment time per
    /// 32 CFR §170.21(a)(2)(ii).
    MustBeMetAtAssessment,
    /// One-pointer explicitly excluded by 32 CFR §170.21(a)(2)(iii).
    ExcludedOnePointer,
}

/// Condition that must be met for POA&M eligibility.
#[derive(Debug, Clone, Copy, PartialEq, Eq, Structural)]
pub enum PoamCondition {
    /// Requires executive approval.
    RequiresExecutiveApproval,
    /// Must have documented compensating controls.
    RequiresCompensatingControls,
    /// Must have a detailed remediation plan.
    RequiresDetailedRemediationPlan,
    /// Limited time window (e.g. 180 days).
    TimeRestricted { max_days: u16 },
    /// Requires risk acceptance documentation.
    RequiresRiskAcceptance,
    /// Eligible only in the partially implemented state (the −3 tier of a
    /// variable-weight requirement), never from a fully unimplemented state.
    PartialImplementationOnly,
}

/// POA&M validation result.
#[derive(Debug, Clone)]
pub struct PoamValidation {
    /// Requirement identifier, as given.
    pub requirement_id: String,
    /// Whether this requirement can be added to a POA&M.
    pub eligibility: PoamEligibility,
    /// Reason, if not eligible.
    pub reason: Option<IneligibilityReason>,
    /// Conditions that must be met.
    pub conditions: Vec<PoamCondition>,
    /// Additional guidance.
    pub guidance: String,
}

/// Abstract value of a [`PoamValidation`].
pub struct PoamValidationView {
    pub requirement_id: Seq<char>,
    pub eligibility: PoamEligibility,
    pub reason: Option<IneligibilityReason>,
    pub conditions: Seq<PoamCondition>,
    pub guidance: Seq<char>,
}

impl View for PoamValidation {
    type V = PoamValidationView;

    open spec fn view(&self) -> PoamValidationView {
        PoamValidationView {
            requirement_id: self.requirement_id@,
            eligibility: self.eligibility,
            reason: self.reason,
            conditions: self.conditions@,
            guidance: self.guidance@,
        }
    }
}

impl PoamValidation {
    /// A field-by-field copy.
    pub fn duplicate(&self) -> (r: PoamValidation)
        ensures
            r@ == self@,
    {
        let mut conditions: Vec<PoamCondition> = Vec::new();
        let n = self.conditions.len();
        for i in 0..n
            invariant
                n == self.conditions@.len(),
                conditions@ == self.conditions@.take(i as int),
        {
            conditions.push(self.conditions[i]);
            assert(conditions@ =~= self.conditions@.take(i + 1));
        }
        assert(conditions@ =~= self.conditions@);
        PoamValidation {
            requirement_id: self.requirement_id.clone(),
            eligibility: self.eligibility,
            reason: self.reason,
            conditions,
            guidance: self.guidance.clone(),
        }
    }
}

/// POA&M close-out window per the CMMC final rule (32 CFR §170.21(a)(4)).
pub const POAM_CLOSEOUT_DAYS: u16 = 180;

/// 03.05.03 — MFA. Never POA&M-eligible, even partially implemented.
pub const MFA_ID: &'static str = "03.05.03";
/// 03.13.11 — FIPS-validated cryptography. Eligible only in the partial tier.
pub const FIPS_CRYPTO_ID: &'static str = "03.13.11";
/// 03.12.04 — the SSP. Unscored; its absence blocks assessment entirely.
pub const SSP_ID: &'static str = "03.12.04";

/// Guidance for a requirement outside SPRS scoring scope.
pub const OUT_OF_SCOPE_GUIDANCE: &'static str = "This requirement is outside SPRS scoring scope (DoD Assessment Methodology Annex A covers the 110 Rev 2 requirements; Rev-3-only additions and SP 800-172 enhanced requirements carry no methodology weight). 32 CFR §170.21(a)(2) does not define POA&M treatment for it — consult your assessor.";
/// Guidance for multifactor authentication.
pub const MFA_GUIDANCE: &'static str = "Multifactor authentication (3.5.3) is never POA&M-eligible under 32 CFR §170.21(a)(2), even when partially implemented. It must be fully implemented at assessment time.";
/// Guidance for FIPS-validated cryptography.
pub const FIPS_GUIDANCE: &'static str = "FIPS-validated cryptography (3.13.11) may be deferred on a POA&M ONLY when encryption is already deployed but not yet FIPS-validated (the −3 partial tier). With no CUI encryption at all (−5), it cannot be deferred — deploy encryption first. Close-out within 180 days.";
/// Guidance for the system security plan.
pub const SSP_GUIDANCE: &'static str = "The System Security Plan (3.12.4) is the foundation of the assessment — the assessment cannot proceed without it, so it can never be placed on a POA&M.";
/// Guidance for a plain 1-point requirement.
pub const ONE_POINT_GUIDANCE: &'static str = "1-point requirement, POA&M-eligible per 32 CFR §170.21(a)(2). A detailed remediation plan is required and the POA&M must be closed out within 180 days of the assessment.";
/// Opening of the guidance for an excluded one-pointer.
pub const EXCLUDED_GUIDANCE_PREFIX: &'static str = "Excluded from POA&M by 32 CFR §170.21(a)(2)(iii) despite its 1-point weight: ";
/// Closing of the guidance for an excluded one-pointer.
pub const EXCLUDED_GUIDANCE_SUFFIX: &'static str = ". It must be fully implemented at assessment time.";
/// Opening of the guidance for a 3- or 5-point requirement.
pub const HEAVY_GUIDANCE_PREFIX: &'static str = "This is a ";
/// Closing of the guidance for a 3- or 5-point requirement.
pub const HEAVY_GUIDANCE_SUFFIX: &'static str = "-point requirement under the DoD Assessment Methodology (Annex A). 32 CFR §170.21(a)(2)(ii) limits POA&M items to 1-point requirements, so it must be fully implemented at assessment time.";

/// The rationale for each one-pointer excluded by 32 CFR §170.21(a)(2)(iii)
/// (Rev 3 identifiers); `None` for every other identifier.
pub open spec fn excluded_reason(id: Seq<char>) -> Option<Seq<char>> {
    if id == "03.01.20"@ {
        Some("CUI boundary protection (external connections) is non-negotiable"@)
    } else if id == "03.01.22"@ {
        Some("Public information disclosure control for CUI is critical"@)
    } else if id == "03.10.03"@ {
        Some("Physical escort of visitors in CUI areas must be controlled"@)
    } else if id == "03.10.04"@ {
        Some("Physical access audit trail for CUI areas is required"@)
    } else if id == "03.10.05"@ {
        Some("Physical protection of CUI areas is fundamental"@)
    } else {
        None
    }
}

/// The outcome for a requirement that has a score, `id` being the identifier
/// under which it was looked up.
pub open spec fn validation_with_score(
    given_id: Seq<char>,
    id: Seq<char>,
    score: RequirementScoreView,
) -> PoamValidationView {
    if id == MFA_ID@ {
        PoamValidationView {
            requirement_id: given_id,
            eligibility: PoamEligibility::NotEligible,
            reason: Some(IneligibilityReason::CriticalControl),
            conditions: Seq::empty(),
            guidance: MFA_GUIDANCE@,
        }
    } else if id == FIPS_CRYPTO_ID@ {
        PoamValidationView {
            requirement_id: given_id,
            eligibility: PoamEligibility::Conditional,
            reason: None,
            conditions: seq![
                PoamCondition::PartialImplementationOnly,
                PoamCondition::RequiresDetailedRemediationPlan,
                PoamCondition::TimeRestricted { max_days: POAM_CLOSEOUT_DAYS },
            ],
            guidance: FIPS_GUIDANCE@,
        }
    } else if id == SSP_ID@ {
        PoamValidationView {
            requirement_id: given_id,
            eligibility: PoamEligibility::NotEligible,
            reason: Some(IneligibilityReason::CriticalControl),
            conditions: Seq::empty(),
            guidance: SSP_GUIDANCE@,
        }
    } else if excluded_reason(id) is Some {
        PoamValidationView {
            requirement_id: given_id,
            eligibility: PoamEligibility::NotEligible,
            reason: Some(IneligibilityReason::ExcludedOnePointer),
            conditions: Seq::empty(),
            guidance: EXCLUDED_GUIDANCE_PREFIX@ + excluded_reason(id).unwrap()
                + EXCLUDED_GUIDANCE_SUFFIX@,
        }
    } else if score.point_value > 1 {
        PoamValidationView {
            requirement_id: given_id,
            eligibility: PoamEligibility::NotEligible,
            reason: Some(IneligibilityReason::MustBeMetAtAssessment),
            conditions: Seq::empty(),
            guidance: HEAVY_GUIDANCE_PREFIX@ + decimal(score.point_value as nat)
                + HEAVY_GUIDANCE_SUFFIX@,
        }
    } else {
        PoamValidationView {
            requirement_id: given_id,
            eligibility: PoamEligibility::Eligible,
            reason: None,
            conditions: seq![
                PoamCondition::RequiresDetailedRemediationPlan,
                PoamCondition::TimeRestricted { max_days: POAM_CLOSEOUT_DAYS },
            ],
            guidance: ONE_POINT_GUIDANCE@,
        }
    }
}

/// The identifier under which a requirement is looked up: its normalized
/// Rev 3 form when it has one, else the identifier as given.
pub open spec fn lookup_id(requirement_id: Seq<char>) -> Seq<char> {
    match normalize_spec(requirement_id) {
        Some(n) => n,
        None => requirement_id,
    }
}

/// The POA&M validation of a requirement against a score table.
pub open spec fn validation_for(t: ScoreTable, requirement_id: Seq<char>) -> PoamValidationView {
    let id = lookup_id(requirement_id);
    match score_of(t, id) {
        Some(score) => validation_with_score(requirement_id, id, score),
        None => PoamValidationView {
            requirement_id,
            eligibility: PoamEligibility::Conditional,
            reason: None,
            conditions: seq![
                PoamCondition::RequiresDetailedRemediationPlan,
                PoamCondition::RequiresRiskAcceptance,
            ],
            guidance: OUT_OF_SCOPE_GUIDANCE@,
        },
    }
}

/// The identifiers of a score table, in table order.
pub open spec fn table_ids(t: ScoreTable) -> Seq<Seq<char>> {
    t.map_values(|p: (Seq<char>, RequirementScoreView)| p.0)
}

/// The identifiers among `ids` whose validation is `NotEligible`, in order.
pub open spec fn non_eligible_ids(t: ScoreTable, ids: Seq<Seq<char>>) -> Seq<Seq<char>>
    decreases ids.len(),
{
    if ids.len() == 0 {
        Seq::empty()
    } else {
        let prev = non_eligible_ids(t, ids.drop_last());
        if validation_for(t, ids.last()).eligibility == PoamEligibility::NotEligible {
            prev.push(ids.last())
        } else {
            prev
        }
    }
}

/// The rationale of an excluded one-pointer.
fn excluded_reason_of(id: &str) -> (r: Option<&'static str>)
    ensures
        match excluded_reason(id@) {
            Some(s) => r is Some && r.unwrap()@ == s,
            None => r is None,
        },
{
    if str_eq(id, "03.01.20") {
        Some("CUI boundary protection (external connections) is non-negotiable")
    } else if str_eq(id, "03.01.22") {
        Some("Public information disclosure control for CUI is critical")
    } else if str_eq(id, "03.10.03") {
        Some("Physical escort of visitors in CUI areas must be controlled")
    } else if str_eq(id, "03.10.04") {
        Some("Physical access audit trail for CUI areas is required")
    } else if str_eq(id, "03.10.05") {
        Some("Physical protection of CUI areas is fundamental")
    } else {
        None
    }
}

/// POA&M validator backed by a scoring table.
pub struct PoamValidator {
    scoring_db: ScoringDatabase,
}

impl PoamValidator {
    /// The score table behind the validator.
    pub closed spec fn table(&self) -> ScoreTable {
        self.scoring_db@
    }

    /// Create a new POA&M validator.
    pub fn new(scoring_db: ScoringDatabase) -> (v: Self)
        ensures
            v.table() == scoring_db@,
    {
        Self { scoring_db }
    }

    /// Validate whether a requirement can be added to a POA&M. Accepts both
    /// Rev 2 (`3.5.3`) and Rev 3 (`03.05.03`) identifier forms.
    pub fn validate(&self, requirement_id: &str) -> (r: PoamValidation)
        ensures
            r@ == validation_for(self.table(), requirement_id@),
    {
        let id = match normalize_requirement_id(requirement_id) {
            Some(n) => n,
            None => requirement_id.to_owned(),
        };
        match self.scoring_db.get_score(id.as_str()) {
            Some(score) => self.validate_with_score(requirement_id, id.as_str(), score),
            None => PoamValidation {
                requirement_id: requirement_id.to_owned(),
                eligibility: PoamEligibility::Conditional,
                reason: None,
                conditions: vec![
                    PoamCondition::RequiresDetailedRemediationPlan,
                    PoamCondition::RequiresRiskAcceptance,
                ],
                guidance: OUT_OF_SCOPE_GUIDANCE.to_owned(),
            },
        }
    }

    /// Batch validate multiple requirements, in order.
    pub fn validate_batch(&self, requirement_ids: &[String]) -> (r: Vec<PoamValidation>)
        ensures
            r@.len() == requirement_ids@.len(),
            forall|i: int|
                0 <= i < r@.len() ==> (#[trigger] r@[i])@ == validation_for(
                    self.table(),
                    requirement_ids@[i]@,
                ),
    {
        let mut r: Vec<PoamValidation> = Vec::new();
        let n = requirement_ids.len();
        for i in 0..n
            invariant
                n == requirement_ids@.len(),
                r@.len() == i,
                forall|k: int|
                    0 <= k < i ==> (#[trigger] r@[k])@ == validation_for(
                        self.table(),
                        requirement_ids@[k]@,
                    ),
        {
            r.push(self.validate(requirement_ids[i].as_str()));
        }
        r
    }

    /// All requirements that can never be added to a POA&M: every 3- and
    /// 5-point requirement, the excluded one-pointers, MFA and the SSP,
    /// sorted by identifier.
    pub fn get_non_eligible_requirements(&self) -> (r: Vec<String>)
        ensures
            lex_sorted(strings_view(r@)),
            strings_view(r@).to_multiset() == non_eligible_ids(self.table(), table_ids(self.table())).to_multiset(),
            strings_view(r@).no_duplicates(),
    {
        let all = self.scoring_db.all_requirement_ids();
        let ghost ids = table_ids(self.table());
        let mut kept: Vec<String> = Vec::new();
        let n = all.len();
        assert(strings_view(all@) == ids);
        assert(strings_view(all@) =~= all@.map_values(|s: String| s@));
        for i in 0..n
            invariant
                n == all@.len(),
                strings_view(all@) == ids,
                strings_view(kept@) == non_eligible_ids(self.table(), ids.take(i as int)),
        {
            proof {
                assert(ids.take(i + 1).drop_last() =~= ids.take(i as int));
                assert(ids.take(i + 1).last() == ids[i as int]);
                assert(ids[i as int] == all@[i as int]@);
            }
            let v = self.validate(all[i].as_str());
            if v.eligibility == PoamEligibility::NotEligible {
                let ghost before = strings_view(kept@);
                kept.push(all[i].clone());
                assert(strings_view(kept@) =~= before.push(all@[i as int]@));
            }
        }
        assert(ids.take(n as int) =~= ids);
        let r = sort_strings(&kept);
        proof {
            let ne = non_eligible_ids(self.table(), ids);
            lemma_non_eligible_distinct(self.table(), ids);
            ne.lemma_multiset_has_no_duplicates();
            strings_view(r@).lemma_multiset_has_no_duplicates_conv();
        }
        r
    }

    fn validate_with_score(
        &self,
        given_id: &str,
        normalized_id: &str,
        score: &RequirementScore,
    ) -> (r: PoamValidation)
        ensures
            r@ == validation_with_score(given_id@, normalized_id@, score@),
    {
        // Rule 1: MFA is never POA&M-eligible, even partially implemented.
        if str_eq(normalized_id, MFA_ID) {
            return PoamValidation {
                requirement_id: given_id.to_owned(),
                eligibility: PoamEligibility::NotEligible,
                reason: Some(IneligibilityReason::CriticalControl),
                conditions: Vec::new(),
                guidance: MFA_GUIDANCE.to_owned(),
            };
        }
        // Rule 2: FIPS crypto is eligible only in its partial (−3) tier.
        if str_eq(normalized_id, FIPS_CRYPTO_ID) {
            return PoamValidation {
                requirement_id: given_id.to_owned(),
                eligibility: PoamEligibility::Conditional,
                reason: None,
                conditions: vec![
                    PoamCondition::PartialImplementationOnly,
                    PoamCondition::RequiresDetailedRemediationPlan,
                    PoamCondition::TimeRestricted { max_days: POAM_CLOSEOUT_DAYS },
                ],
                guidance: FIPS_GUIDANCE.to_owned(),
            };
        }
        // Rule 3: the SSP has no numeric weight; without it assessment cannot
        // proceed, so it can never be deferred.
        if str_eq(normalized_id, SSP_ID) {
            return PoamValidation {
                requirement_id: given_id.to_owned(),
                eligibility: PoamEligibility::NotEligible,
                reason: Some(IneligibilityReason::CriticalControl),
                conditions: Vec::new(),
                guidance: SSP_GUIDANCE.to_owned(),
            };
        }
        // Rule 4: one-pointers named by 32 CFR §170.21(a)(2)(iii) are excluded.
        if let Some(reason) = excluded_reason_of(normalized_id) {
            let mut guidance = concat2(EXCLUDED_GUIDANCE_PREFIX, reason);
            guidance.append(EXCLUDED_GUIDANCE_SUFFIX);
            return PoamValidation {
                requirement_id: given_id.to_owned(),
                eligibility: PoamEligibility::NotEligible,
                reason: Some(IneligibilityReason::ExcludedOnePointer),
                conditions: Vec::new(),
                guidance,
            };
        }
        // Rule 5: 3- and 5-point requirements must be MET at assessment time.
        if score.point_value > 1 {
            let mut guidance = HEAVY_GUIDANCE_PREFIX.to_owned();
            push_decimal(&mut guidance, score.point_value as usize);
            guidance.append(HEAVY_GUIDANCE_SUFFIX);
            return PoamValidation {
                requirement_id: given_id.to_owned(),
                eligibility: PoamEligibility::NotEligible,
                reason: Some(IneligibilityReason::MustBeMetAtAssessment),
                conditions: Vec::new(),
                guidance,
            };
        }
        // Rule 6: remaining 1-pointers are eligible with a remediation plan
        // and the 180-day close-out window.
        PoamValidation {
            requirement_id: given_id.to_owned(),
            eligibility: PoamEligibility::Eligible,
            reason: None,
            conditions: vec![
                PoamCondition::RequiresDetailedRemediationPlan,
                PoamCondition::TimeRestricted { max_days: POAM_CLOSEOUT_DAYS },
            ],
            guidance: ONE_POINT_GUIDANCE.to_owned(),
        }
    }
}

impl Default for PoamValidator {
    fn default() -> (v: Self)
        ensures
            v.table() == insert_all(Seq::empty(), annex_rows()),
    {
        PoamValidator::new(ScoringDatabase::new())
    }
}

// ---------------------------------------------------------------------------
// Laws of the eligibility rules
// ---------------------------------------------------------------------------

/// A validation always reports the identifier it was asked about, unchanged.
pub proof fn lemma_validation_keeps_identifier(t: ScoreTable, requirement_id: Seq<char>)
    ensures
        validation_for(t, requirement_id).requirement_id == requirement_id,
{
}

/// The Rev 2 form of an identifier (`3.5.3`) and its Rev 3 form (`03.05.03`)
/// are validated alike: same eligibility, reason, conditions and guidance.
pub proof fn lemma_identifier_forms_agree(t: ScoreTable, requirement_id: Seq<char>)
    requires
        normalize_spec(requirement_id) is Some,
    ensures
        ({
            let a = validation_for(t, requirement_id);
            let b = validation_for(t, normalize_spec(requirement_id).unwrap());
            &&& a.eligibility == b.eligibility
            &&& a.reason == b.reason
            &&& a.conditions == b.conditions
            &&& a.guidance == b.guidance
        }),
{
    lemma_normalize_idempotent(requirement_id);
}

/// Only 1-point requirements are ever eligible, never MFA, FIPS cryptography,
/// the SSP or an excluded one-pointer, and every eligible item carries a
/// detailed remediation plan and the 180-day close-out window.
pub proof fn lemma_eligible_only_one_pointers(t: ScoreTable, requirement_id: Seq<char>)
    requires
        validation_for(t, requirement_id).eligibility == PoamEligibility::Eligible,
    ensures
        score_of(t, lookup_id(requirement_id)) is Some,
        score_of(t, lookup_id(requirement_id)).unwrap().point_value <= 1,
        lookup_id(requirement_id) != MFA_ID@,
        lookup_id(requirement_id) != FIPS_CRYPTO_ID@,
        lookup_id(requirement_id) != SSP_ID@,
        excluded_reason(lookup_id(requirement_id)) is None,
        validation_for(t, requirement_id).conditions == seq![
            PoamCondition::RequiresDetailedRemediationPlan,
            PoamCondition::TimeRestricted { max_days: POAM_CLOSEOUT_DAYS },
        ],
        validation_for(t, requirement_id).reason is None,
{
}

/// Multifactor authentication is never eligible; when it is scored it is
/// refused as a critical control.
pub proof fn lemma_mfa_never_eligible(t: ScoreTable, requirement_id: Seq<char>)
    requires
        lookup_id(requirement_id) == MFA_ID@,
    ensures
        validation_for(t, requirement_id).eligibility != PoamEligibility::Eligible,
        score_of(t, lookup_id(requirement_id)) is Some ==> validation_for(t, requirement_id).eligibility
            == PoamEligibility::NotEligible && validation_for(t, requirement_id).reason == Some(
            IneligibilityReason::CriticalControl,
        ),
{
}

/// FIPS-validated cryptography is always conditional; when it is scored, only
/// in its partially implemented state.
pub proof fn lemma_fips_partial_only(t: ScoreTable, requirement_id: Seq<char>)
    requires
        lookup_id(requirement_id) == FIPS_CRYPTO_ID@,
    ensures
        validation_for(t, requirement_id).eligibility == PoamEligibility::Conditional,
        score_of(t, lookup_id(requirement_id)) is Some ==> validation_for(
            t,
            requirement_id,
        ).conditions.contains(PoamCondition::PartialImplementationOnly),
{
    reveal_strlit("03.13.11");
    reveal_strlit("03.05.03");
    if score_of(t, lookup_id(requirement_id)) is Some {
        assert(validation_for(t, requirement_id).conditions[0]
            == PoamCondition::PartialImplementationOnly);
    }
}

/// The system security plan is never eligible; when it is scored it is
/// refused as a critical control.
pub proof fn lemma_ssp_never_eligible(t: ScoreTable, requirement_id: Seq<char>)
    requires
        lookup_id(requirement_id) == SSP_ID@,
    ensures
        validation_for(t, requirement_id).eligibility != PoamEligibility::Eligible,
        score_of(t, lookup_id(requirement_id)) is Some ==> validation_for(t, requirement_id).eligibility
            == PoamEligibility::NotEligible && validation_for(t, requirement_id).reason == Some(
            IneligibilityReason::CriticalControl,
        ),
{
    reveal_strlit("03.12.04");
    reveal_strlit("03.05.03");
    reveal_strlit("03.13.11");
}

/// The one-pointers excluded by 32 CFR §170.21(a)(2)(iii) are never eligible;
/// when scored they are refused with that reason.
pub proof fn lemma_excluded_never_eligible(t: ScoreTable, requirement_id: Seq<char>)
    requires
        excluded_reason(lookup_id(requirement_id)) is Some,
    ensures
        validation_for(t, requirement_id).eligibility != PoamEligibility::Eligible,
        score_of(t, lookup_id(requirement_id)) is Some ==> validation_for(t, requirement_id).eligibility
            == PoamEligibility::NotEligible && validation_for(t, requirement_id).reason == Some(
            IneligibilityReason::ExcludedOnePointer,
        ),
{
    reveal_strlit("03.05.03");
    reveal_strlit("03.13.11");
    reveal_strlit("03.12.04");
    reveal_strlit("03.01.20");
    reveal_strlit("03.01.22");
    reveal_strlit("03.10.03");
    reveal_strlit("03.10.04");
    reveal_strlit("03.10.05");
    let id = lookup_id(requirement_id);
    assert(id.len() == 8 && id[0] == '0' && id[1] == '3') by {
        assert(id == "03.01.20"@ || id == "03.01.22"@ || id == "03.10.03"@ || id == "03.10.04"@
            || id == "03.10.05"@);
    }
    assert(id[4] == '1' || id[4] == '0');
    assert(id != MFA_ID@) by {
        assert(MFA_ID@[4] == '5');
    }
    assert(id != SSP_ID@) by {
        assert(SSP_ID@[3] == '1' && SSP_ID@[4] == '2');
        assert(id[4] == '1' || id[4] == '0');
    }
    assert(id != FIPS_CRYPTO_ID@) by {
        assert(FIPS_CRYPTO_ID@[4] == '3');
        assert(id[4] == '1' || id[4] == '0');
    }
}

/// A 3- or 5-point requirement is never eligible.
pub proof fn lemma_heavy_never_eligible(t: ScoreTable, requirement_id: Seq<char>)
    requires
        score_of(t, lookup_id(requirement_id)) is Some,
        score_of(t, lookup_id(requirement_id)).unwrap().point_value > 1,
    ensures
        validation_for(t, requirement_id).eligibility != PoamEligibility::Eligible,
{
}

/// A reason is given exactly for the requirements that are not eligible.
pub proof fn lemma_reason_iff_not_eligible(t: ScoreTable, requirement_id: Seq<char>)
    ensures
        (validation_for(t, requirement_id).reason is Some) <==> (validation_for(t, requirement_id).eligibility
            == PoamEligibility::NotEligible),
{
}

/// The shape of every outcome of a scored requirement: it keeps the given
/// identifier, gives a reason exactly when not eligible, lists no condition
/// when not eligible, and otherwise always asks for a detailed remediation plan.
pub proof fn lemma_scored_validation_shape(given_id: Seq<char>, id: Seq<char>, score: RequirementScoreView)
    ensures
        ({
            let v = validation_with_score(given_id, id, score);
            &&& v.requirement_id == given_id
            &&& (v.reason is Some <==> v.eligibility == PoamEligibility::NotEligible)
            &&& (v.eligibility == PoamEligibility::NotEligible ==> v.conditions.len() == 0)
            &&& (v.eligibility != PoamEligibility::NotEligible ==> v.conditions.contains(
                PoamCondition::RequiresDetailedRemediationPlan,
            ))
        }),
{
    let v = validation_with_score(given_id, id, score);
    if v.eligibility != PoamEligibility::NotEligible {
        if id == FIPS_CRYPTO_ID@ {
            assert(v.conditions[1] == PoamCondition::RequiresDetailedRemediationPlan);
        } else {
            assert(v.conditions[0] == PoamCondition::RequiresDetailedRemediationPlan);
        }
    }
}

/// The same shape holds of every validation, scored or not.
pub proof fn lemma_validation_shape(t: ScoreTable, requirement_id: Seq<char>)
    ensures
        ({
            let v = validation_for(t, requirement_id);
            &&& v.requirement_id == requirement_id
            &&& (v.reason is Some <==> v.eligibility == PoamEligibility::NotEligible)
            &&& (v.eligibility == PoamEligibility::NotEligible ==> v.conditions.len() == 0)
            &&& (v.eligibility != PoamEligibility::NotEligible ==> v.conditions.contains(
                PoamCondition::RequiresDetailedRemediationPlan,
            ))
        }),
{
    let id = lookup_id(requirement_id);
    match score_of(t, id) {
        Some(score) => lemma_scored_validation_shape(requirement_id, id, score),
        None => {
            assert(validation_for(t, requirement_id).conditions[0] == PoamCondition::RequiresDetailedRemediationPlan);
        },
    }
}

/// Whatever may be deferred must be closed out in time: every outcome of a
/// scored requirement that is not `NotEligible` (a plain one-pointer, or FIPS
/// cryptography in its partial state) carries the close-out window of
/// `POAM_CLOSEOUT_DAYS` (180) days among its conditions.
pub proof fn lemma_scored_deferral_is_time_restricted(
    given_id: Seq<char>,
    id: Seq<char>,
    score: RequirementScoreView,
)
    ensures
        POAM_CLOSEOUT_DAYS == 180,
        validation_with_score(given_id, id, score).eligibility != PoamEligibility::NotEligible
            ==> validation_with_score(given_id, id, score).conditions.contains(
            PoamCondition::TimeRestricted { max_days: POAM_CLOSEOUT_DAYS },
        ),
{
    let v = validation_with_score(given_id, id, score);
    if v.eligibility != PoamEligibility::NotEligible {
        if id == FIPS_CRYPTO_ID@ {
            assert(v.conditions[2] == PoamCondition::TimeRestricted { max_days: POAM_CLOSEOUT_DAYS });
        } else {
            assert(v.conditions[1] == PoamCondition::TimeRestricted { max_days: POAM_CLOSEOUT_DAYS });
        }
    }
}

/// Every validation of a scored requirement that is not `NotEligible` carries
/// the 180-day close-out window among its conditions.
pub proof fn lemma_deferral_is_time_restricted(t: ScoreTable, requirement_id: Seq<char>)
    requires
        score_of(t, lookup_id(requirement_id)) is Some,
    ensures
        validation_for(t, requirement_id).eligibility != PoamEligibility::NotEligible
            ==> validation_for(t, requirement_id).conditions.contains(
            PoamCondition::TimeRestricted { max_days: POAM_CLOSEOUT_DAYS },
        ),
{
    let id = lookup_id(requirement_id);
    lemma_scored_deferral_is_time_restricted(requirement_id, id, score_of(t, id).unwrap());
}

/// An unscored requirement is conditional, needing a remediation plan and a
/// risk acceptance.
pub proof fn lemma_unscored_is_conditional(t: ScoreTable, requirement_id: Seq<char>)
    requires
        score_of(t, lookup_id(requirement_id)) is None,
    ensures
        validation_for(t, requirement_id).eligibility == PoamEligibility::Conditional,
        validation_for(t, requirement_id).conditions == seq![
            PoamCondition::RequiresDetailedRemediationPlan,
            PoamCondition::RequiresRiskAcceptance,
        ],
{
}

/// The never-eligible list holds exactly the listed identifiers whose
/// Selecting from identifiers that occur once each keeps them once each.
proof fn lemma_non_eligible_distinct(t: ScoreTable, ids: Seq<Seq<char>>)
    requires
        ids.no_duplicates(),
    ensures
        non_eligible_ids(t, ids).no_duplicates(),
    decreases ids.len(),
{
    if ids.len() > 0 {
        let prev = ids.drop_last();
        assert(prev.no_duplicates()) by {
            assert forall|a: int, b: int| 0 <= a < prev.len() && 0 <= b < prev.len() && a != b implies prev[a]
                != prev[b] by {
                assert(prev[a] == ids[a] && prev[b] == ids[b]);
            }
        }
        lemma_non_eligible_distinct(t, prev);
        let ne = non_eligible_ids(t, prev);
        let x = ids.last();
        if validation_for(t, x).eligibility == PoamEligibility::NotEligible {
            lemma_non_eligible_members(t, prev, x);
            assert(!prev.contains(x)) by {
                if prev.contains(x) {
                    let k = choose|k: int| 0 <= k < prev.len() && prev[k] == x;
                    assert(ids[k] == ids[ids.len() - 1]);
                }
            }
            let s2 = ne.push(x);
            assert forall|a: int, b: int| 0 <= a < s2.len() && 0 <= b < s2.len() && a != b implies s2[a]
                != s2[b] by {
                if a == ne.len() {
                    assert(s2[b] == ne[b]);
                    if ne[b] == x {
                        assert(ne.contains(x));
                    }
                } else if b == ne.len() {
                    assert(s2[a] == ne[a]);
                    if ne[a] == x {
                        assert(ne.contains(x));
                    }
                } else {
                    assert(s2[a] == ne[a] && s2[b] == ne[b]);
                }
            }
        }
    }
}

/// validation is `NotEligible`.
pub proof fn lemma_non_eligible_members(t: ScoreTable, ids: Seq<Seq<char>>, x: Seq<char>)
    ensures
        non_eligible_ids(t, ids).contains(x) <==> (ids.contains(x) && validation_for(t, x).eligibility
            == PoamEligibility::NotEligible),
    decreases ids.len(),
{
    if ids.len() > 0 {
        let prev = ids.drop_last();
        lemma_non_eligible_members(t, prev, x);
        assert(ids =~= prev.push(ids.last()));
        if ids.contains(x) && x != ids.last() {
            let k = choose|k: int| 0 <= k < ids.len() && ids[k] == x;
            assert(prev[k] == x);
        }
        if prev.contains(x) {
            let k = choose|k: int| 0 <= k < prev.len() && prev[k] == x;
            assert(ids[k] == x);
        }
        let ne = non_eligible_ids(t, prev);
        if validation_for(t, ids.last()).eligibility == PoamEligibility::NotEligible {
            if ne.push(ids.last()).contains(x) && x != ids.last() {
                let k = choose|k: int| 0 <= k < ne.push(ids.last()).len() && ne.push(ids.last())[k] == x;
                assert(ne[k] == x);
            }
            if x == ids.last() {
                assert(ne.push(ids.last())[ne.len() as int] == x);
            }
            if ne.contains(x) {
                let k = choose|k: int| 0 <= k < ne.len() && ne[k] == x;
                assert(ne.push(ids.last())[k] == x);
            }
        }
        if x == ids.last() {
            assert(ids[ids.len() - 1] == x);
        }
    }
}

} // verus!
