use vstd::prelude::*;

verus! {

/// What the renderer shares between the parts of one compile.
pub struct Ctx {
    /// Title of the outline slide; empty when there is no outline.
    pub outline: String,
    /// Global auto-animate option.
    pub auto_animate: bool,
    /// Whether the slides show the title of their chapter.
    pub chapter_header: bool,
    /// Title of the chapter being rendered, for the chapter header.
    pub header: String,
    /// Attributes of the global background.
    pub background: String,
    /// Fragment counter of the slide being rendered.
    pub frag: u64,
    /// Texts of the imported files, by path.
    pub imports: Vec<(String, String)>,
}

/// The text stored for `path` from position `i` of the table on, if any.
pub open spec fn lookup_from(t: Seq<(String, String)>, path: Seq<char>, i: nat) -> Option<Seq<char>>
    decreases t.len() - i,
{
    if i >= t.len() {
        None
    } else if t[i as int].0@ == path {
        Some(t[i as int].1@)
    } else {
        lookup_from(t, path, i + 1)
    }
}

/// The text of the first entry of the table for `path`.
pub open spec fn lookup(t: Seq<(String, String)>, path: Seq<char>) -> Option<Seq<char>> {
    lookup_from(t, path, 0)
}

/// Finds the text stored for `path`.
pub fn find_text(t: &Vec<(String, String)>, path: &str) -> (r: Option<String>)
    ensures
        r matches Some(s) ==> lookup(t@, path@) == Some(s@),
        r is None ==> lookup(t@, path@) is None,
{
    let p = String::from_str(path);
    let mut i: usize = 0;
    while i < t.len()
        invariant
            i <= t@.len(),
            p@ == path@,
            lookup_from(t@, path@, i as nat) == lookup(t@, path@),
        decreases t@.len() - i,
    {
        if t[i].0 == p {
            return Some(t[i].1.clone());
        }
        i = i + 1;
    }
    None
}

} // verus!
