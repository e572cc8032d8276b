use htrpc::path_template::{PathSegment, PathTemplate};
use htrpc::procedure::EntryPoint;

#[test]
fn path_template_it_works() {
    let segments = vec![PathSegment::Val("foo"), PathSegment::Var, PathSegment::Val("baz")];
    let path0 = PathTemplate::new(segments);
    let path1 = PathTemplate::new(vec![
        PathSegment::Val("foo"),
        PathSegment::Var,
        PathSegment::Val("baz"),
    ]);
    assert_eq!(path0, path1);
}

#[test]
fn procedure_it_works() {
    let segments = vec![PathSegment::Val("foo"), PathSegment::Var, PathSegment::Val("baz")];
    let path0 = EntryPoint::new(segments);
    let path1 = EntryPoint::new(vec![
        PathSegment::Val("foo"),
        PathSegment::Var,
        PathSegment::Val("baz"),
    ]);
    assert_eq!(path0, path1);
}

#[test]
fn template_ops() {
    let t = PathTemplate::new(vec![
        PathSegment::Val("foo"),
        PathSegment::Var,
        PathSegment::Val("baz"),
        PathSegment::Var,
    ]);
    assert_eq!(t.len(), 4);
    assert_eq!(t.var_count(), 2);
    assert_eq!(t.get_val(0), Some("foo"));
    assert_eq!(t.get_val(1), None);
    assert!(t.is_var_remaning(2));
    assert!(!t.is_var_remaning(4));
    assert_eq!(t.segments().len(), 4);
    assert_eq!(PathSegment::Val("foo").as_option(), Some("foo"));
    assert_eq!(PathSegment::Var.as_option(), None);

    let e = EntryPoint::new(vec![PathSegment::Val("counters"), PathSegment::Var]);
    assert_eq!(e.var_count(), 1);
    assert_eq!(e.segments().len(), 2);
}
