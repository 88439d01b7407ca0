use nimesvc::generators::rust::util::{axum_path, status_code_expr, to_kebab_case, to_snake_case};
use nimesvc::paths::{join_path, path_components, path_extension, path_file_name, path_less, paths_equal};
use nimesvc::text::{i64_to_string, join, lines_of, trim, u64_to_string};

#[test]
fn text_helpers_match_std() {
    assert_eq!(trim("\u{3000} a b \t\n"), "a b");
    assert_eq!(lines_of("a\r\nb\n\nc\r"), vec!["a", "b", "", "c\r"]);
    assert_eq!(lines_of("x\n"), vec!["x"]);
    assert!(lines_of("").is_empty());
    assert_eq!(join(&vec!["a".to_string(), "b".to_string()], ", "), "a, b");
    assert_eq!(u64_to_string(0), "0");
    assert_eq!(u64_to_string(18446744073709551615), "18446744073709551615");
    assert_eq!(i64_to_string(-9223372036854775808), "-9223372036854775808");
}

#[test]
fn paths_compare_by_components() {
    assert_eq!(path_components("/a//b/./c/"), vec!["/", "a", "b", "c"]);
    assert_eq!(path_components("./a/../b"), vec![".", "a", "..", "b"]);
    assert!(paths_equal("a/b", "a//b/"));
    assert!(!paths_equal("a/b", "/a/b"));
    assert!(path_less("/z", "a"));
    assert!(path_less("a/b", "a.b"));
    assert_eq!(join_path("dir", "x.rs"), "dir/x.rs");
    assert_eq!(join_path("dir/", "x.rs"), "dir/x.rs");
    assert_eq!(join_path("dir", "/abs"), "/abs");
    assert_eq!(path_extension("a/b.tar.gz"), Some("gz".to_string()));
    assert_eq!(path_extension("a/.hidden"), None);
    assert_eq!(path_file_name("a/b/.."), None);
    assert_eq!(path_file_name("a/b/"), Some("b".to_string()));
}

#[test]
fn rust_names_and_paths() {
    assert_eq!(to_snake_case("UserCreatedV2"), "user_created_v2");
    assert_eq!(to_kebab_case("User Service_API"), "user--service--a-p-i");
    assert_eq!(to_kebab_case("__"), "");
    assert_eq!(to_kebab_case("*"), "service-api");
    assert_eq!(axum_path("/users/{id}/posts/{}"), "/users/:id/posts/{}");
    assert_eq!(axum_path("/x/{open"), "/x/:open");
    assert_eq!(status_code_expr(201), "StatusCode::CREATED");
    assert_eq!(status_code_expr(418), "StatusCode::from_u16(418).unwrap()");
}
