use tolerance_api::poam::{IneligibilityReason, PoamCondition, PoamEligibility, PoamValidator};
use tolerance_api::scoring::{ScoreJson, ScoringDatabase};

#[test]
fn mfa_never_eligible_in_both_id_forms() {
    let validator = PoamValidator::default();
    for id in ["03.05.03", "3.5.3"] {
        let result = validator.validate(id);
        assert_eq!(result.eligibility, PoamEligibility::NotEligible, "{id}");
        assert!(matches!(result.reason, Some(IneligibilityReason::CriticalControl)));
    }
}

#[test]
fn fips_crypto_partial_only() {
    let validator = PoamValidator::default();
    let result = validator.validate("03.13.11");
    assert_eq!(result.eligibility, PoamEligibility::Conditional);
    assert!(result
        .conditions
        .iter()
        .any(|c| matches!(c, PoamCondition::PartialImplementationOnly)));
}

#[test]
fn ssp_never_eligible() {
    let validator = PoamValidator::default();
    let result = validator.validate("03.12.04");
    assert_eq!(result.eligibility, PoamEligibility::NotEligible);
}

#[test]
fn excluded_one_pointers_not_eligible() {
    let validator = PoamValidator::default();
    for id in ["03.01.20", "03.01.22", "03.10.03", "03.10.04", "03.10.05"] {
        let result = validator.validate(id);
        assert_eq!(result.eligibility, PoamEligibility::NotEligible, "{id}");
        assert!(matches!(result.reason, Some(IneligibilityReason::ExcludedOnePointer)));
    }
}

#[test]
fn heavy_requirements_must_be_met() {
    let validator = PoamValidator::default();
    for id in ["03.01.01", "03.09.01"] {
        let result = validator.validate(id);
        assert_eq!(result.eligibility, PoamEligibility::NotEligible, "{id}");
        assert!(matches!(result.reason, Some(IneligibilityReason::MustBeMetAtAssessment)));
    }
}

#[test]
fn plain_one_pointer_eligible() {
    let validator = PoamValidator::default();
    let result = validator.validate("03.01.03");
    assert_eq!(result.eligibility, PoamEligibility::Eligible);
    assert!(result
        .conditions
        .iter()
        .any(|c| matches!(c, PoamCondition::TimeRestricted { max_days: 180 })));
}

#[test]
fn out_of_scope_is_conditional() {
    let validator = PoamValidator::default();
    for id in ["03.15.01", "3.1.1e"] {
        let result = validator.validate(id);
        assert_eq!(result.eligibility, PoamEligibility::Conditional, "{id}");
    }
}

#[test]
fn non_eligible_list_matches_cfr() {
    let validator = PoamValidator::default();
    let ids = validator.get_non_eligible_requirements();
    for expected in ["03.05.03", "03.12.04", "03.01.20", "03.01.01"] {
        assert!(ids.contains(&expected.to_string()), "missing {expected}");
    }
    assert!(!ids.contains(&"03.01.03".to_string()));
    assert!(!ids.contains(&"03.13.11".to_string()));
    assert_eq!(ids.len(), 63);
}

#[test]
fn batch_validation() {
    let validator = PoamValidator::default();
    let ids = vec!["03.01.01".to_string(), "03.01.03".to_string()];
    let results = validator.validate_batch(&ids);
    assert_eq!(results.len(), 2);
}

#[test]
fn validation_keeps_the_given_identifier() {
    let validator = PoamValidator::default();
    let result = validator.validate("3.1.3");
    assert_eq!(result.requirement_id, "3.1.3");
    assert_eq!(result.eligibility, PoamEligibility::Eligible);
    assert_eq!(result.reason, None);
    assert_eq!(
        result.conditions,
        vec![
            PoamCondition::RequiresDetailedRemediationPlan,
            PoamCondition::TimeRestricted { max_days: 180 }
        ]
    );
}

#[test]
fn heavy_guidance_names_the_weight() {
    let validator = PoamValidator::default();
    let five = validator.validate("03.01.01");
    assert!(five.guidance.starts_with("This is a 5-point requirement"));
    let three = validator.validate("03.09.01");
    assert!(three.guidance.starts_with("This is a 3-point requirement"));
}

#[test]
fn excluded_guidance_names_the_rationale() {
    let validator = PoamValidator::default();
    let result = validator.validate("3.10.5");
    assert_eq!(
        result.guidance,
        "Excluded from POA&M by 32 CFR §170.21(a)(2)(iii) despite its 1-point weight: \
         Physical protection of CUI areas is fundamental. It must be fully implemented at \
         assessment time."
    );
}

#[test]
fn rev2_and_rev3_forms_agree() {
    let validator = PoamValidator::default();
    for (r2, r3) in [("3.1.1", "03.01.01"), ("3.13.11", "03.13.11"), ("3.1.22", "03.01.22")] {
        let a = validator.validate(r2);
        let b = validator.validate(r3);
        assert_eq!(a.eligibility, b.eligibility);
        assert_eq!(a.reason, b.reason);
        assert_eq!(a.conditions, b.conditions);
        assert_eq!(a.guidance, b.guidance);
    }
}

#[test]
fn non_eligible_list_is_sorted_and_all_refused() {
    let validator = PoamValidator::default();
    let ids = validator.get_non_eligible_requirements();
    let mut sorted = ids.clone();
    sorted.sort();
    assert_eq!(ids, sorted);
    for id in &ids {
        assert_eq!(validator.validate(id).eligibility, PoamEligibility::NotEligible);
    }
}

#[test]
fn unscored_table_makes_everything_conditional() {
    let validator = PoamValidator::new(ScoringDatabase::from_entries(&[]));
    let result = validator.validate("03.05.03");
    assert_eq!(result.eligibility, PoamEligibility::Conditional);
    assert_eq!(
        result.conditions,
        vec![PoamCondition::RequiresDetailedRemediationPlan, PoamCondition::RequiresRiskAcceptance]
    );
    assert!(validator.get_non_eligible_requirements().is_empty());
}

#[test]
fn custom_table_drives_the_rules() {
    let entry = |level: u8, points: u8| ScoreJson {
        cmmc_level: level,
        point_value: points,
        is_foundational: false,
        priority: "LOW".to_string(),
        notes: None,
    };
    let db = ScoringDatabase::from_entries(&[
        ("03.02.01".to_string(), entry(2, 1)),
        ("03.02.02".to_string(), entry(2, 3)),
    ]);
    let validator = PoamValidator::new(db);
    assert_eq!(validator.validate("3.2.1").eligibility, PoamEligibility::Eligible);
    assert_eq!(validator.validate("3.2.2").eligibility, PoamEligibility::NotEligible);
    assert_eq!(validator.get_non_eligible_requirements(), vec!["03.02.02".to_string()]);
}
