use empl::config::path_segment::{GetPathSegmentError, HomeSource, PathSegment, UnknownEnvVarError};
use empl::config::path_segments::choice::Choice;
use empl::config::path_segments::PathSegments;

#[test]
fn path_segment_display() {
    assert_eq!(PathSegment::HomeDir.display(), "${HOME}");
    assert_eq!(PathSegment::EnvVar("foo").display(), "${foo}");
    assert_eq!(PathSegment::Segment("bar").display(), "bar");
}

#[test]
fn path_segments_display() {
    assert_eq!(PathSegments(&[]).display(), "");
    assert_eq!(PathSegments(&[PathSegment::Segment("foo")]).display(), "foo");
    assert_eq!(
        PathSegments(&[PathSegment::Segment("foo"), PathSegment::Segment("bar")]).display(),
        "foo/bar"
    );
}

#[test]
fn choice_length_requirement() {
    for len in 0..1 {
        let segments: Vec<PathSegments> = (0..len).map(|_| PathSegments::default()).collect();
        assert_eq!(Choice::new(&segments), None);
    }
}

#[test]
fn choice_display() {
    assert_eq!(
        Choice::new(&[PathSegments(&[PathSegment::Segment("foo")])]).unwrap().display(),
        "`foo`"
    );
    assert_eq!(
        Choice::new(&[
            PathSegments(&[PathSegment::Segment("foo")]),
            PathSegments(&[PathSegment::Segment("bar")]),
        ])
        .unwrap()
        .display(),
        "either `foo`, or `bar`"
    );
    assert_eq!(
        Choice::new(&[
            PathSegments(&[PathSegment::Segment("foo")]),
            PathSegments(&[PathSegment::Segment("bar")]),
            PathSegments(&[PathSegment::Segment("baz")]),
        ])
        .unwrap()
        .display(),
        "either `foo`, `bar`, or `baz`"
    );
}

#[test]
fn segments_resolve_from_the_environment() {
    assert_eq!(
        PathSegment::Segment("x").to_path(None, HomeSource::Passwd(Err(2))).ok(),
        Some("x")
    );
    assert_eq!(
        PathSegment::EnvVar("HOME").to_path(Some("/home/foo"), HomeSource::Passwd(Err(2))).ok(),
        Some("/home/foo")
    );
    assert!(matches!(
        PathSegment::EnvVar("HOME").to_path(None, HomeSource::Passwd(Err(2))),
        Err(GetPathSegmentError::UnknownEnvVar(UnknownEnvVarError("HOME")))
    ));
    assert_eq!(
        PathSegment::HomeDir.to_path(None, HomeSource::Env("/home/foo")).ok(),
        Some("/home/foo")
    );
    assert_eq!(
        PathSegment::HomeDir.to_path(None, HomeSource::Passwd(Ok("/home/bar"))).ok(),
        Some("/home/bar")
    );
    assert!(matches!(
        PathSegment::HomeDir.to_path(None, HomeSource::Passwd(Err(2))),
        Err(GetPathSegmentError::ReadPwd(2))
    ));
    assert_eq!(
        UnknownEnvVarError("HOME").message(),
        "unknown environment variable `HOME`"
    );
}

#[test]
fn segment_kinds() {
    assert!(PathSegment::HomeDir.is_dynamic());
    assert!(!PathSegment::Segment("é").is_dynamic());
    assert_eq!(PathSegment::Segment("é").size_hint(), Some(2));
    assert_eq!(PathSegment::EnvVar("A").size_hint(), None);
}
