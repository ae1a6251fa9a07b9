use kailua_core::dehumanize::dehumanize_json;
use kailua_core::template::apply_search_paths_template;

fn apply(sp: &[u8], path: &[u8]) -> Option<Vec<u8>> {
    apply_search_paths_template(sp, path)
}

#[test]
fn test_apply_search_paths_template() {
    assert_eq!(apply(b"?.lua", b"foo/bar.lua"), Some(b"?.lua".to_vec()));
    assert_eq!(apply(b"{start_dir}/?.lua", b"foo/bar.lua"), Some(b"foo/?.lua".to_vec()));
    assert_eq!(apply(b"{start_dir}/?.lua", b"bar.lua"), Some(b"./?.lua".to_vec()));
    assert_eq!(apply(b"a/{start_dir}/?;?/{start_dir}.lua", b"p//q"), Some(b"a/p/?;?/p.lua".to_vec()));
    assert_eq!(apply(b"{{start_dir}}/?.lua", b"foo/bar.lua"), None);
    assert_eq!(apply(b"?.lua;{start_dir", b"foo/bar.lua"), None);
    assert_eq!(apply(b"?.lua;{no_dir}/?.lua", b"foo/bar.lua"), None);
    assert_eq!(apply(b"?.lua;{}/?.lua", b"foo/bar.lua"), None);
    assert_eq!(apply(b"?.lua;{", b"foo/bar.lua"), None);
    assert_eq!(apply(b"?.lua;}/?.lua", b"foo/bar.lua"), None);
}

#[test]
fn test_dehumanize_json() {
    let dh = |s: &str| String::from_utf8(dehumanize_json(s.as_bytes())).unwrap();
    assert_eq!(dh("[3, 4/*5*/6]"), "[3 ,4 6]");
    assert_eq!(dh("[3, 4//5, 6]\n7"), "[3 ,4 \n7");
    assert_eq!(dh(r#"[3, "4//5", "/*6*/"]"#), r#"[3 ,"4//5" ,"/*6*/"]"#);
    assert_eq!(dh("[3, 4, 5,\n/*wat*/\n// ???\n]"), "[3 ,4 ,5\n \n \n]");
}
