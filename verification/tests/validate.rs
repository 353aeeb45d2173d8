use fid_rs::Fid;
use louds_rs::{LbsError, Louds};

fn bits_of(s: &str) -> Vec<bool> {
    s.chars().filter(|c| *c != '_').map(|c| c == '1').collect()
}

#[test]
fn validate_lbs_success_t1() {
    let fid = Fid::from("10_0");
    assert_eq!(Louds::validate_lbs(&fid), Ok(()));
}

#[test]
fn validate_lbs_success_t2() {
    let fid = Fid::from("10_10_0");
    assert_eq!(Louds::validate_lbs(&fid), Ok(()));
}

#[test]
fn validate_lbs_success_t3() {
    let fid = Fid::from("10_1110_10_0_1110_0_0_10_110_0_0_0");
    assert_eq!(Louds::validate_lbs(&fid), Ok(()));
}

#[test]
fn validate_lbs_success_t4() {
    let fid = Fid::from("10_11111111110_0_0_0_0_0_0_0_0_0_0");
    assert_eq!(Louds::validate_lbs(&fid), Ok(()));
}

#[test]
fn validate_lbs_failure_t1() {
    let fid = Fid::from("0");
    assert_eq!(Louds::validate_lbs(&fid), Err(LbsError::BadStart));
}

#[test]
fn validate_lbs_failure_t2() {
    let fid = Fid::from("1");
    assert_eq!(Louds::validate_lbs(&fid), Err(LbsError::BadStart));
}

#[test]
fn validate_lbs_failure_t3() {
    let fid = Fid::from("00");
    assert_eq!(Louds::validate_lbs(&fid), Err(LbsError::BadStart));
}

#[test]
fn validate_lbs_failure_t4() {
    let fid = Fid::from("01");
    assert_eq!(Louds::validate_lbs(&fid), Err(LbsError::BadStart));
}

#[test]
fn validate_lbs_failure_t5() {
    let fid = Fid::from("10");
    assert_eq!(Louds::validate_lbs(&fid), Err(LbsError::Unbalanced));
}

#[test]
fn validate_lbs_failure_t6() {
    let fid = Fid::from("11");
    assert_eq!(Louds::validate_lbs(&fid), Err(LbsError::BadStart));
}

#[test]
fn validate_lbs_failure_t7() {
    let fid = Fid::from("00_0");
    assert_eq!(Louds::validate_lbs(&fid), Err(LbsError::BadStart));
}

#[test]
fn validate_lbs_failure_t8() {
    let fid = Fid::from("01_0");
    assert_eq!(Louds::validate_lbs(&fid), Err(LbsError::BadStart));
}

#[test]
fn validate_lbs_failure_t9() {
    let fid = Fid::from("11_0");
    assert_eq!(Louds::validate_lbs(&fid), Err(LbsError::BadStart));
}

#[test]
fn validate_lbs_failure_t10() {
    let fid = Fid::from("10_1");
    assert_eq!(Louds::validate_lbs(&fid), Err(LbsError::Unbalanced));
}

#[test]
fn validate_lbs_failure_t11() {
    let fid = Fid::from("10_10");
    assert_eq!(Louds::validate_lbs(&fid), Err(LbsError::Unbalanced));
}

#[test]
fn validate_lbs_failure_t12() {
    let fid = Fid::from("10_01");
    assert_eq!(Louds::validate_lbs(&fid), Err(LbsError::Unbalanced));
}

#[test]
fn validate_lbs_failure_t13() {
    let fid = Fid::from("10_1110_10_0_1110_0_0_10_110_0_0_1");
    assert_eq!(Louds::validate_lbs(&fid), Err(LbsError::Unbalanced));
}

#[test]
fn validate_lbs_names_first_unbalanced_prefix() {
    // After "100" two bits are clear and one is set: still balanced. The
    // fourth bit makes three clear bits against one set bit.
    let fid = Fid::from("10_0_0_11");
    assert_eq!(
        Louds::validate_lbs(&fid),
        Err(LbsError::PrefixUnbalanced { index: 3 })
    );
    let fid = Fid::from("10_10_0_0_0_1110");
    assert_eq!(
        Louds::validate_lbs(&fid),
        Err(LbsError::PrefixUnbalanced { index: 5 })
    );
}

#[test]
fn validate_lbs_start_fault_comes_before_balance_fault() {
    let fid = Fid::from("0_0_0");
    assert_eq!(Louds::validate_lbs(&fid), Err(LbsError::BadStart));
    let fid = Fid::from("11_0_0_0_0");
    assert_eq!(Louds::validate_lbs(&fid), Err(LbsError::BadStart));
}

#[test]
fn from_str_accepts_valid_forms() {
    for s in ["10_0", "100", "10_10_0", "10100", "1_0_1_1_0_0_0", "__10__0__"] {
        assert!(Louds::from_str(s).is_ok(), "{}", s);
    }
    assert!(Louds::from_str("10_1110_10_0_1110_0_0_10_110_0_0_0").is_ok());
    assert!(Louds::from_str("10_11111111110_0_0_0_0_0_0_0_0_0_0").is_ok());
}

#[test]
fn from_str_rejection_scenarios() {
    assert_eq!(Louds::from_str("0").unwrap_err(), LbsError::BadStart);
    assert_eq!(Louds::from_str("1").unwrap_err(), LbsError::BadStart);
    assert_eq!(Louds::from_str("11").unwrap_err(), LbsError::BadStart);
    assert_eq!(Louds::from_str("10_1").unwrap_err(), LbsError::Unbalanced);
    assert_eq!(Louds::from_str("10_01").unwrap_err(), LbsError::Unbalanced);
}

#[test]
fn from_str_rejects_what_validate_lbs_rejects() {
    for s in [
        "0", "1", "00", "01", "10", "11", "00_0", "01_0", "11_0", "10_1", "10_10", "10_01",
        "10_1110_10_0_1110_0_0_10_110_0_0_1",
    ] {
        let from_str = Louds::from_str(s).unwrap_err();
        let from_bits = Louds::from_bits(&bits_of(s)).unwrap_err();
        let validated = Louds::validate_lbs(&Fid::from(s)).unwrap_err();
        assert_eq!(from_str, validated, "{}", s);
        assert_eq!(from_bits, validated, "{}", s);
    }
}

#[test]
fn from_str_names_first_disallowed_character() {
    assert_eq!(Louds::from_str("10 0").unwrap_err(), LbsError::InvalidChar(' '));
    assert_eq!(Louds::from_str("10_2_x").unwrap_err(), LbsError::InvalidChar('2'));
    assert_eq!(Louds::from_str("abc").unwrap_err(), LbsError::InvalidChar('a'));
    assert_eq!(Louds::from_str("10_0\n").unwrap_err(), LbsError::InvalidChar('\n'));
    assert_eq!(
        Louds::from_str("10\u{ff11}0").unwrap_err(),
        LbsError::InvalidChar('\u{ff11}')
    );
    // A disallowed character is reported even where the bits before it are
    // already no LOUDS bit sequence.
    assert_eq!(Louds::from_str("0000-").unwrap_err(), LbsError::InvalidChar('-'));
}

#[test]
fn from_str_without_bits_is_bad_start() {
    assert_eq!(Louds::from_str("").unwrap_err(), LbsError::BadStart);
    assert_eq!(Louds::from_str("_").unwrap_err(), LbsError::BadStart);
    assert_eq!(Louds::from_str("____").unwrap_err(), LbsError::BadStart);
}

#[test]
fn from_bits_without_bits_is_bad_start() {
    assert_eq!(Louds::from_bits(&[]).unwrap_err(), LbsError::BadStart);
}

#[test]
fn from_bits_names_first_unbalanced_prefix() {
    let bits = [true, false, false, false, true, true];
    assert_eq!(
        Louds::from_bits(&bits).unwrap_err(),
        LbsError::PrefixUnbalanced { index: 3 }
    );
}

#[test]
fn from_bits_and_from_str_build_the_same_tree() {
    let s = "10_1110_10_0_1110_0_0_10_110_0_0_0";
    let from_str = Louds::from_str(s).unwrap();
    let from_bits = Louds::from_bits(&bits_of(s)).unwrap();
    for n in 1..=11u64 {
        let node = louds_rs::LoudsNodeNum(n);
        assert_eq!(
            from_str.node_num_to_index(node),
            from_bits.node_num_to_index(node)
        );
        assert_eq!(
            from_str.parent_to_children(node),
            from_bits.parent_to_children(node)
        );
    }
}

#[test]
fn from_bits_keeps_the_bits_given() {
    // Would fail if the bits handed over were not the bits stored: the set
    // bits sit at 0, 2 and 3, and nowhere else.
    let louds = Louds::from_bits(&[true, false, true, true, false, false, false]).unwrap();
    let expected = [true, false, true, true, false, false, false];
    for (i, bit) in expected.iter().enumerate() {
        assert_eq!(louds.validate_index(louds_rs::LoudsIndex(i as u64)), *bit);
    }
    assert!(!louds.validate_index(louds_rs::LoudsIndex(7)));
}

#[test]
fn clone_is_the_same_tree() {
    let louds = Louds::from_str("10_1110_10_0_1110_0_0_10_110_0_0_0").unwrap();
    let copy = louds.clone();
    for n in 1..=11u64 {
        let node = louds_rs::LoudsNodeNum(n);
        assert_eq!(louds.node_num_to_index(node), copy.node_num_to_index(node));
        assert_eq!(louds.parent_to_children(node), copy.parent_to_children(node));
    }
    assert!(!copy.contains_node(louds_rs::LoudsNodeNum(12)));
}
