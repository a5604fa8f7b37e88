use performance_service::args::{
    answer_is, deploy_args_from_texts, parse_i32, parse_i32_list, parse_int_field, parse_list_field,
    DeployTexts,
};
use performance_service::ErrorCode;

#[test]
fn integers_parse_like_std() {
    for text in ["0", "42", "-7", "+8", "2147483647", "-2147483648", "2147483648", "", "-", "+", "1a", " 1", "99999999999"] {
        assert_eq!(parse_i32(text), text.parse::<i32>().ok(), "on {:?}", text);
    }
}

#[test]
fn lists_split_on_commas() {
    assert_eq!(parse_i32_list("0,1,2"), Some(vec![0, 1, 2]));
    assert_eq!(parse_i32_list("3"), Some(vec![3]));
    assert_eq!(parse_i32_list("0,,1"), None);
    assert_eq!(parse_i32_list("0,x"), None);
    assert_eq!(parse_i32_list(""), None);
}

#[test]
fn fields_are_trimmed() {
    assert_eq!(parse_list_field(" 0,1\n"), Some(vec![0, 1]));
    assert_eq!(parse_int_field("  64 "), Some(64));
    assert_eq!(parse_int_field("\u{3000}7\u{a0}"), Some(7));
    assert_eq!(parse_list_field("\t1,2 \r\n"), Some(vec![1, 2]));
    assert_eq!(parse_list_field("1, 2"), None);
}

#[test]
fn answers_compare_lowercased_and_trimmed() {
    assert!(answer_is(" Y\n", "y"));
    assert!(answer_is("1", "1"));
    assert!(!answer_is("yes", "y"));
}

fn texts(modes: &str, relax: &str) -> DeployTexts {
    DeployTexts {
        modes: modes.to_string(),
        relax_bits: relax.to_string(),
        total_pp_only: false,
        total_pp: true,
        mods_filter: None,
        neq_mods_filter: None,
        mapper_filter: None,
        map_filter: None,
    }
}

#[test]
fn deploy_args_accept_valid_texts() {
    let mut t = texts("0,3", "0,1");
    t.mods_filter = Some(" 128".to_string());
    t.map_filter = Some("10,20".to_string());
    let a = deploy_args_from_texts(t).ok().unwrap();
    assert_eq!(a.modes, vec![0, 3]);
    assert_eq!(a.relax_bits, vec![0, 1]);
    assert_eq!(a.mods_filter, Some(128));
    assert_eq!(a.neq_mods_filter, None);
    assert_eq!(a.map_filter, Some(vec![10, 20]));
    assert!(a.total_pp && !a.total_pp_only);
}

#[test]
fn deploy_args_reject_out_of_range() {
    for t in [texts("4", "0"), texts("0", "3"), texts("a", "0"), texts("0", "")] {
        match deploy_args_from_texts(t) {
            Err(e) => assert!(matches!(e.error_code, ErrorCode::BadRequest)),
            Ok(_) => panic!("expected a bad request"),
        }
    }
}
