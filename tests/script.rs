use kyber::{delete_range, overlaps, parse, selected, ContentRegion, EditorContext, Mutation};

fn context(regions: &[&str]) -> EditorContext {
    EditorContext {
        contents: regions
            .iter()
            .enumerate()
            .map(|(i, text)| ContentRegion {
                text: text.to_string(),
                selected: i % 2 == 1,
            })
            .collect(),
    }
}

#[test]
fn script_single_char() {
    let script = parse(r#"find("t");"#).unwrap();

    assert!(script.applies_to(&context(&["t"])));
    assert!(!script.applies_to(&context(&["u"])));
}

#[test]
fn anywhere_in_string() {
    let script = parse(r#"find("test");"#).unwrap();

    assert!(script.applies_to(&context(&["test"])));
    assert!(script.applies_to(&context(&["t", "", "est"])));
    assert!(!script.applies_to(&context(&["test", "", ""])));
    assert!(!script.applies_to(&context(&["r", "", "est"])));
    assert!(!script.applies_to(&context(&["t", "", "t"])));
}

#[test]
fn with_selected() {
    let script = parse(r#"find("test");"#).unwrap();

    assert!(script.applies_to(&context(&["t", "es", "t"])));
}

#[test]
fn concatenated() {
    let script = parse(r#"find("te" .. "st");"#).unwrap();

    assert!(script.applies_to(&context(&["test"])));
}

#[test]
fn binding() {
    let script = parse(r#"find(foo:("te" .. "st"));"#).unwrap();

    assert!(script.applies_to(&context(&["test"])));
}

#[test]
fn regex() {
    let script = parse(r#"find(/s+/);"#).unwrap();

    assert!(script.applies_to(&context(&["s"])));
}

#[test]
fn multiple_tries_for_concat() {
    let script = parse(r#"find("te" .. "st");"#).unwrap();

    assert!(script.applies_to(&context(&["tet", "", "est"])));
}

#[test]
fn end_to_end() {
    let script = parse(
        r#"find(
            a:(/[\w_]+/ .. /\s+/) ..
            "!=" ..
            b:(/\s+/ .. /[\w_]+/));"#,
    )
    .unwrap();

    assert!(!script.applies_to(&context(&["extern crate rand; { not_a_winner != false }"])));
    assert!(script.applies_to(&context(&["not_a_winner ", "!=", " false"])));
}

#[test]
fn multiple_instances() {
    let script = parse(
        r#"find(
            a:(/[\w_]+/ .. /\s+/) ..
            "!=" ..
            b:(/\s+/ .. /[\w_]+/));"#,
    )
    .unwrap();

    assert!(script.applies_to(&context(&["foo != bar; not_a_winner ", "!=", " false"])));
}

#[test]
fn overlaps_() {
    assert!(overlaps(&(0..4), &(3..3)));
    assert!(!overlaps(&(0..4), &(4..4)));
}

#[test]
fn selected_() {
    assert_eq!(selected(&context(&["test"]).contents_ref()), 0..0);
    assert_eq!(selected(&context(&["test", "some"]).contents_ref()), 4..8);
    assert_eq!(
        selected(&context(&["test", "some", "stuff"]).contents_ref()),
        4..8
    );
    assert_eq!(
        selected(&context(&["test", "", "stuff"]).contents_ref()),
        4..4
    );
}

#[test]
fn single_char_replacement() {
    let script = parse(r#"let region = find("t"); region.replace("r");"#).unwrap();

    assert_eq!(
        script.perform(&context(&["t"])).unwrap(),
        vec![Mutation::Delete(1), Mutation::Insert("r".to_string())]
    );
}

#[test]
fn replace_with_concat() {
    let script = parse(r#"let region = find("t"); region.replace("r" .. "e");"#).unwrap();

    assert_eq!(
        script.perform(&context(&["t"])).unwrap(),
        vec![Mutation::Delete(1), Mutation::Insert("re".to_string())]
    );
}

#[test]
fn using_binding() {
    let script =
        parse(r#"let region = find("r" .. foo:(/\w+/)); region.replace(region.foo);"#).unwrap();

    assert_eq!(
        script.perform(&context(&["rate"])).unwrap(),
        vec![Mutation::Delete(4), Mutation::Insert("ate".to_string())]
    );
}

#[test]
fn multiple_occurrences() {
    let script = parse(r#"let region = find("r"); region.replace("t");"#).unwrap();

    assert_eq!(
        script.perform(&context(&["rrr", "", "r"])).unwrap(),
        vec![Mutation::Delete(1), Mutation::Insert("t".to_string())]
    );
}

#[test]
fn delete_range_() {
    assert_eq!(delete_range(0..1, 0..0).unwrap(), (1, 0));
    assert_eq!(delete_range(0..2, 0..0).unwrap(), (2, 0));
    assert_eq!(delete_range(1..2, 1..1).unwrap(), (1, 0));
    assert_eq!(delete_range(0..2, 1..1).unwrap(), (1, 1));
    assert_eq!(delete_range(0..2, 0..2).unwrap(), (1, 0));
    assert_eq!(delete_range(0..4, 0..2).unwrap(), (3, 0));

    assert_eq!(delete_range(1..3, 0..0), None);
}
