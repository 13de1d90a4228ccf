use sqlbuilder::args::Arg;
use sqlbuilder::cond::Cond;

#[test]
fn equal_holds_field_and_fresh_placeholder() {
    let mut c = Cond::new();
    assert_eq!(c.equal("a", Arg::Int(1)), "a = $256");
    assert_eq!(c.equal("b", Arg::Int(2)), "b = $257");
    assert_eq!(c.e("c", Arg::Int(3)), "c = $258");
    assert_eq!(c.eq("d", Arg::Int(4)), "d = $259");
    assert_eq!(c.args().finalize().len(), 4);
}

#[test]
fn empty_field_gives_nothing() {
    let mut c = Cond::new();
    assert_eq!(c.equal("", Arg::Int(1)), "");
    assert_eq!(c.not_equal("", Arg::Int(1)), "");
    assert_eq!(c.in_("", vec![Arg::Int(1)]), "");
    assert_eq!(c.between("", Arg::Int(1), Arg::Int(2)), "");
    assert_eq!(c.is_null(""), "");
    assert_eq!(c.any("a", "", vec![Arg::Int(1)]), "");
    assert_eq!(c.args().finalize().len(), 0);
}

#[test]
fn and_or_skip_empty_members() {
    let c = Cond::new();
    assert_eq!(c.and(vec![]), "");
    assert_eq!(c.and(vec!["".to_string()]), "");
    assert_eq!(
        c.and(vec!["a=1".to_string(), "".to_string(), "b=2".to_string()]),
        "(a=1 AND b=2)"
    );
    assert_eq!(c.or(vec!["a=1".to_string(), "b=2".to_string()]), "(a=1 OR b=2)");
    assert_eq!(c.or(vec!["".to_string(), "".to_string()]), "");
}

#[test]
fn not_wraps_non_empty() {
    let c = Cond::new();
    assert_eq!(c.not("a = 1".to_string()), "NOT a = 1");
    assert_eq!(c.not(String::new()), "");
}

#[test]
fn comparisons() {
    let mut c = Cond::new();
    assert_eq!(c.ne("a", Arg::Int(1)), "a <> $256");
    assert_eq!(c.gt("a", Arg::Int(1)), "a > $257");
    assert_eq!(c.ge("a", Arg::Int(1)), "a >= $258");
    assert_eq!(c.lt("a", Arg::Int(1)), "a < $259");
    assert_eq!(c.le("a", Arg::Int(1)), "a <= $260");
    assert_eq!(c.like("a", Arg::Int(1)), "a LIKE $261");
    assert_eq!(c.not_like("a", Arg::Int(1)), "a NOT LIKE $262");
    assert_eq!(c.is_distinct_from("a", Arg::Int(1)), "a IS DISTINCT FROM $263");
    assert_eq!(c.is_not_distinct_from("a", Arg::Int(1)), "a IS NOT DISTINCT FROM $264");
}

#[test]
fn case_insensitive_like_lowers_both_sides() {
    let mut c = Cond::new();
    assert_eq!(c.i_like("name", Arg::Str("%A%".to_string())), "LOWER(name) LIKE LOWER($256)");
    assert_eq!(c.not_i_like("name", Arg::Null), "LOWER(name) NOT LIKE LOWER($257)");
}

#[test]
fn lists_register_each_value() {
    let mut c = Cond::new();
    assert_eq!(c.in_("id", vec![Arg::Int(1), Arg::Int(2), Arg::Int(3)]), "id IN ($256, $257, $258)");
    assert_eq!(c.not_in("id", vec![Arg::Int(4)]), "id NOT IN ($259)");
    assert_eq!(c.in_("id", vec![]), "id IN ()");
    assert_eq!(c.any("x", ">", vec![Arg::Int(1), Arg::Int(2)]), "x > ANY ($260, $261)");
    assert_eq!(c.all("x", "<", vec![Arg::Int(1)]), "x < ALL ($262)");
    assert_eq!(c.some("x", "=", vec![Arg::Int(1)]), "x = SOME ($263)");
    assert_eq!(c.args().finalize().len(), 8);
}

#[test]
fn null_checks_register_nothing() {
    let c = Cond::new();
    assert_eq!(c.is_null("a"), "a IS NULL");
    assert_eq!(c.is_not_null("a"), "a IS NOT NULL");
    assert_eq!(c.args().finalize().len(), 0);
}

#[test]
fn ranges_and_subqueries() {
    let mut c = Cond::new();
    assert_eq!(c.between("a", Arg::Int(1), Arg::Int(9)), "a BETWEEN $256 AND $257");
    assert_eq!(c.not_between("a", Arg::Int(1), Arg::Int(9)), "a NOT BETWEEN $258 AND $259");
    assert_eq!(c.exists_(Arg::Raw("SELECT 1".to_string())), "EXISTS ($260)");
    assert_eq!(c.not_exists(Arg::Raw("SELECT 2".to_string())), "NOT EXISTS ($261)");
}

#[test]
fn aliases_match_their_targets() {
    let mut c = Cond::new();
    assert_eq!(c.neq("a", Arg::Int(1)), "a <> $256");
    assert_eq!(c.g("a", Arg::Int(1)), "a > $257");
    assert_eq!(c.gte("a", Arg::Int(1)), "a >= $258");
    assert_eq!(c.l("a", Arg::Int(1)), "a < $259");
    assert_eq!(c.lte("a", Arg::Int(1)), "a <= $260");
}
