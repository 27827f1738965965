use chronos::executor::expand::{expand_args, expand_string};
use chronos::shell::state::variables::set_variable;
use chronos::strmap::StringMap;

#[test]
fn test_expand_no_variables() {
    let vars = StringMap::new();
    assert_eq!(expand_string(&vars, "hello world"), "hello world");
}

#[test]
fn test_expand_simple_var() {
    let mut vars = StringMap::new();
    set_variable(&mut vars, "EXP_T2_FOO".to_string(), "bar".to_string());
    assert_eq!(expand_string(&vars, "$EXP_T2_FOO"), "bar");
}

#[test]
fn test_expand_braced_var() {
    let mut vars = StringMap::new();
    set_variable(&mut vars, "EXP_T3_FOO".to_string(), "bar".to_string());
    assert_eq!(expand_string(&vars, "${EXP_T3_FOO}"), "bar");
}

#[test]
fn test_expand_unknown_var() {
    let vars = StringMap::new();
    assert_eq!(expand_string(&vars, "$UNKNOWN_VAR_XYZ"), "");
}

#[test]
fn test_expand_unknown_braced_var() {
    let vars = StringMap::new();
    assert_eq!(expand_string(&vars, "${UNKNOWN_VAR_XYZ}"), "");
}

#[test]
fn test_expand_var_in_middle() {
    let mut vars = StringMap::new();
    set_variable(&mut vars, "EXP_T6_X".to_string(), "mid".to_string());
    assert_eq!(expand_string(&vars, "pre${EXP_T6_X}suf"), "premidsuf");
}

#[test]
fn test_expand_multiple_vars() {
    let mut vars = StringMap::new();
    set_variable(&mut vars, "EXP_T7_A".to_string(), "1".to_string());
    set_variable(&mut vars, "EXP_T7_B".to_string(), "2".to_string());
    assert_eq!(expand_string(&vars, "$EXP_T7_A and $EXP_T7_B"), "1 and 2");
}

#[test]
fn test_expand_adjacent_vars() {
    let mut vars = StringMap::new();
    set_variable(&mut vars, "EXP_T8_X".to_string(), "a".to_string());
    set_variable(&mut vars, "EXP_T8_Y".to_string(), "b".to_string());
    assert_eq!(expand_string(&vars, "$EXP_T8_X$EXP_T8_Y"), "ab");
}

#[test]
fn test_expand_bare_dollar() {
    let vars = StringMap::new();
    assert_eq!(expand_string(&vars, "cost is $"), "cost is $");
}

#[test]
fn test_expand_dollar_followed_by_space() {
    let vars = StringMap::new();
    assert_eq!(expand_string(&vars, "$ hello"), "$ hello");
}

#[test]
fn test_expand_underscore_in_name() {
    let mut vars = StringMap::new();
    set_variable(&mut vars, "EXP_T11_MY_VAR".to_string(), "val".to_string());
    assert_eq!(expand_string(&vars, "$EXP_T11_MY_VAR"), "val");
}

#[test]
fn test_expand_numeric_in_name() {
    let mut vars = StringMap::new();
    set_variable(&mut vars, "EXP_T12_VAR1".to_string(), "one".to_string());
    assert_eq!(expand_string(&vars, "$EXP_T12_VAR1"), "one");
}

#[test]
fn test_expand_args_filters_empty() {
    let vars = StringMap::new();
    let args = vec!["$UNKNOWN_VAR_13".to_string(), "good".to_string()];
    let expanded = expand_args(&vars, &args);
    assert_eq!(expanded, vec!["good".to_string()]);
}

#[test]
fn test_expand_args_preserves_nonempty() {
    let mut vars = StringMap::new();
    set_variable(&mut vars, "EXP_T14_V".to_string(), "value".to_string());
    let args = vec!["$EXP_T14_V".to_string()];
    let expanded = expand_args(&vars, &args);
    assert_eq!(expanded, vec!["value".to_string()]);
}

#[test]
fn test_expand_no_recursive() {
    let mut vars = StringMap::new();
    set_variable(&mut vars, "EXP_T15_A".to_string(), "$EXP_T15_B".to_string());
    set_variable(&mut vars, "EXP_T15_B".to_string(), "deep".to_string());
    assert_eq!(expand_string(&vars, "$EXP_T15_A"), "$EXP_T15_B");
}

#[test]
fn test_expand_unterminated_brace() {
    let vars = StringMap::new();
    assert_eq!(expand_string(&vars, "${UNCLOSED"), "");
}

#[test]
fn test_expand_empty_braces() {
    let vars = StringMap::new();
    assert_eq!(expand_string(&vars, "${}"), "");
}

#[test]
fn test_expand_mixed_braced_unbraced() {
    let mut vars = StringMap::new();
    set_variable(&mut vars, "EXP_T18_X".to_string(), "1".to_string());
    set_variable(&mut vars, "EXP_T18_Y".to_string(), "2".to_string());
    assert_eq!(expand_string(&vars, "${EXP_T18_X}.$EXP_T18_Y"), "1.2");
}

#[test]
fn test_expand_value_with_special_chars() {
    let mut vars = StringMap::new();
    set_variable(&mut vars, "EXP_T19_V".to_string(), "a b c".to_string());
    assert_eq!(expand_string(&vars, "$EXP_T19_V"), "a b c");
}

#[test]
fn test_expand_value_with_dollar() {
    let mut vars = StringMap::new();
    set_variable(&mut vars, "EXP_T20_V".to_string(), "$100".to_string());
    assert_eq!(expand_string(&vars, "$EXP_T20_V"), "$100");
}

#[test]
fn test_expansion_depth_single_level() {
    let mut vars = StringMap::new();
    set_variable(&mut vars, "EXP_T21_X".to_string(), "single".to_string());
    assert_eq!(expand_string(&vars, "$EXP_T21_X"), "single");
}

#[test]
fn test_expansion_depth_no_nesting() {
    let mut vars = StringMap::new();
    set_variable(&mut vars, "EXP_T22_X".to_string(), "$EXP_T22_Y".to_string());
    set_variable(&mut vars, "EXP_T22_Y".to_string(), "nested".to_string());
    assert_eq!(expand_string(&vars, "$EXP_T22_X"), "$EXP_T22_Y");
}

#[test]
fn test_expansion_stress_many_vars() {
    let mut vars = StringMap::new();
    let mut input = String::new();
    let mut expected = String::new();
    for i in 0..100 {
        let var_name = format!("EXP_T23_VAR{}", i);
        let val = format!("val{}", i);
        set_variable(&mut vars, var_name.clone(), val.clone());
        input.push_str(&format!("${} ", var_name));
        expected.push_str(&format!("{} ", val));
    }
    assert_eq!(expand_string(&vars, &input), expected);
}
