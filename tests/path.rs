use choko::{compile_path, match_path, split_path, Segment};

#[test]
fn compile_path_root() {
    let segments = compile_path("/");
    assert!(segments.is_empty());
}

#[test]
fn compile_path_literal() {
    let segments = compile_path("/users/list");
    assert_eq!(segments.len(), 2);
    assert!(matches!(&segments[0], Segment::Literal(s) if s == "users"));
    assert!(matches!(&segments[1], Segment::Literal(s) if s == "list"));
}

#[test]
fn compile_path_with_param() {
    let segments = compile_path("/users/{user_id}/posts/{post_id}");
    assert_eq!(segments.len(), 4);
    assert!(matches!(&segments[0], Segment::Literal(s) if s == "users"));
    assert!(matches!(&segments[1], Segment::Param(s) if s == "user_id"));
    assert!(matches!(&segments[2], Segment::Literal(s) if s == "posts"));
    assert!(matches!(&segments[3], Segment::Param(s) if s == "post_id"));
}

#[test]
fn match_root_path() {
    let segments = compile_path("/");
    assert!(match_path(&segments, "/").is_some());
    assert!(match_path(&segments, "").is_some());
}

#[test]
fn match_literal_path() {
    let segments = compile_path("/users/list");
    assert!(match_path(&segments, "/users/list").is_some());
    assert!(match_path(&segments, "/users/other").is_none());
    assert!(match_path(&segments, "/users").is_none());
    assert!(match_path(&segments, "/users/list/extra").is_none());
}

#[test]
fn match_path_extracts_single_param() {
    let segments = compile_path("/users/{user_id}");
    let params = match_path(&segments, "/users/42").unwrap();
    assert_eq!(params.get("user_id").unwrap(), "42");
}

#[test]
fn match_path_extracts_multiple_params() {
    let segments = compile_path("/users/{user_id}/posts/{post_id}");
    let params = match_path(&segments, "/users/7/posts/99").unwrap();
    assert_eq!(params.get("user_id").unwrap(), "7");
    assert_eq!(params.get("post_id").unwrap(), "99");
}

#[test]
fn match_path_rejects_wrong_length() {
    let segments = compile_path("/users/{id}");
    assert!(match_path(&segments, "/users").is_none());
    assert!(match_path(&segments, "/users/1/extra").is_none());
}

#[test]
fn match_path_rejects_wrong_literal() {
    let segments = compile_path("/api/users");
    assert!(match_path(&segments, "/api/posts").is_none());
}

fn same_segments(a: &[Segment], b: &[Segment]) -> bool {
    a.len() == b.len()
        && a.iter().zip(b.iter()).all(|(x, y)| match (x, y) {
            (Segment::Literal(p), Segment::Literal(q)) => p == q,
            (Segment::Param(p), Segment::Param(q)) => p == q,
            _ => false,
        })
}

#[test]
fn compile_twice_gives_same_segments() {
    for p in ["/users/{id}", "/", "", "a//b/", "/x/{y}/z/"] {
        assert!(same_segments(&compile_path(p), &compile_path(p)));
    }
}

#[test]
fn compile_empty_pattern() {
    assert!(compile_path("").is_empty());
    assert!(compile_path("///").is_empty());
}

#[test]
fn compile_users_id() {
    let segments = compile_path("/users/{id}");
    assert_eq!(segments.len(), 2);
    assert!(matches!(&segments[0], Segment::Literal(s) if s == "users"));
    assert!(matches!(&segments[1], Segment::Param(s) if s == "id"));
}

#[test]
fn compile_redundant_slashes_alike() {
    assert!(same_segments(&compile_path("/a//b/"), &compile_path("a/b")));
}

#[test]
fn compile_brace_edge_cases() {
    let segments = compile_path("/{/}/{}/{x");
    assert_eq!(segments.len(), 4);
    assert!(matches!(&segments[0], Segment::Literal(s) if s == "{"));
    assert!(matches!(&segments[1], Segment::Literal(s) if s == "}"));
    assert!(matches!(&segments[2], Segment::Param(s) if s.is_empty()));
    assert!(matches!(&segments[3], Segment::Literal(s) if s == "{x"));
}

#[test]
fn match_empty_pattern() {
    let segments = compile_path("");
    assert!(match_path(&segments, "/").unwrap().is_empty());
    assert!(match_path(&segments, "").unwrap().is_empty());
    assert!(match_path(&segments, "/x").is_none());
}

#[test]
fn match_users_id() {
    let segments = compile_path("/users/{id}");
    let params = match_path(&segments, "/users/42").unwrap();
    assert_eq!(params.get("id").unwrap(), "42");
    assert_eq!(params.num_entries(), 1);
    assert!(match_path(&segments, "/users").is_none());
    assert!(match_path(&segments, "/users/42/x").is_none());
}

#[test]
fn match_two_params() {
    let segments = compile_path("/users/{a}/posts/{b}");
    let params = match_path(&segments, "/users/7/posts/99").unwrap();
    assert_eq!(params.get("a").unwrap(), "7");
    assert_eq!(params.get("b").unwrap(), "99");
    assert!(params.get("c").is_none());
}

#[test]
fn match_is_case_sensitive() {
    let segments = compile_path("/Users");
    assert!(match_path(&segments, "/users").is_none());
    assert!(match_path(&segments, "//Users//").is_some());
}

#[test]
fn split_drops_empty_components() {
    let parts = split_path("//a/bc///d/");
    assert_eq!(parts, vec!["a".to_string(), "bc".to_string(), "d".to_string()]);
    assert!(split_path("").is_empty());
    assert_eq!(split_path("é/ü"), vec!["é".to_string(), "ü".to_string()]);
}
