use hopen::errors::Error;
use hopen::paths::{resolve, split_path};
use hopen::text::{join_tokens, split_tokens, SepClass};

fn bv(s: &str) -> Vec<u8> {
    s.as_bytes().to_vec()
}

fn segs(v: &[&str]) -> Vec<Vec<u8>> {
    v.iter().map(|s| bv(s)).collect()
}

#[test]
fn scenario_site_root_blog_post() {
    // siteRoot /site, currentDir /site/blog, filename post.html
    let m = resolve(Some(&bv("/site")), &bv("/site/blog"), Some(&bv("post.html"))).unwrap();
    assert_eq!(m.served_dir, segs(&["site"]));
    assert_eq!(m.url_path, segs(&["blog", "post.html"]));
    assert_eq!(join_tokens(47, &m.url_path), bv("blog/post.html"));
}

#[test]
fn scenario_no_root_current_dir() {
    // no siteRoot: the current directory is served at the URL root
    let m = resolve(None, &bv("/tmp/x"), None).unwrap();
    assert_eq!(m.served_dir, segs(&["tmp", "x"]));
    assert!(m.url_path.is_empty());
}

#[test]
fn outside_root_is_rejected() {
    let r = resolve(Some(&bv("/site")), &bv("/elsewhere"), None);
    assert_eq!(r.unwrap_err(), Error::NotUnderSiteRoot);
}

#[test]
fn sibling_prefix_is_not_under_root() {
    // /siteX is not under /site even though the bytes share a prefix
    let r = resolve(Some(&bv("/site")), &bv("/siteX/blog"), None);
    assert_eq!(r.unwrap_err(), Error::NotUnderSiteRoot);
}

#[test]
fn filename_requires_root() {
    let r = resolve(None, &bv("/tmp/x"), Some(&bv("a.html")));
    assert_eq!(r.unwrap_err(), Error::FilenameRequiresRoot);
}

#[test]
fn trailing_slashes_change_nothing() {
    let a = resolve(Some(&bv("/site/")), &bv("/site/blog/"), Some(&bv("post.html"))).unwrap();
    let b = resolve(Some(&bv("/site")), &bv("/site/blog"), Some(&bv("post.html"))).unwrap();
    assert_eq!(a.served_dir, b.served_dir);
    assert_eq!(a.url_path, b.url_path);
}

#[test]
fn current_dir_equal_to_root() {
    let m = resolve(Some(&bv("/site")), &bv("/site"), Some(&bv("index.html"))).unwrap();
    assert_eq!(m.url_path, segs(&["index.html"]));
}

#[test]
fn url_leading_segments_are_the_separating_ones() {
    // depth two below the root: the url path starts with exactly those segments
    let m = resolve(Some(&bv("/a")), &bv("/a/b/c"), None).unwrap();
    assert_eq!(m.url_path, segs(&["b", "c"]));
}

#[test]
fn split_path_drops_empty_segments() {
    assert_eq!(split_path(&bv("//a///b/")), segs(&["a", "b"]));
    assert_eq!(split_path(&bv("")), segs(&[]));
    assert_eq!(split_path(&bv("/")), segs(&[]));
}

#[test]
fn join_then_split_recovers_url_segments() {
    let m = resolve(Some(&bv("/site")), &bv("/site/blog"), Some(&bv("post.html"))).unwrap();
    let joined = join_tokens(47, &m.url_path);
    assert_eq!(split_path(&joined), m.url_path);
}

#[test]
fn split_and_join_tokens() {
    let toks = split_tokens(SepClass::Whitespace, &bv("  one  two\tthree \n"));
    assert_eq!(toks, segs(&["one", "two", "three"]));
    assert_eq!(join_tokens(32, &toks), bv("one two three"));
}
