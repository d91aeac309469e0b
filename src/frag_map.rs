use crate::text::{dec, dec_spec};
use vstd::prelude::*;

verus! {

/// Fragment options of a content block: an ordered list of maps from a
/// tag (`doc`, `math`, `fit`, ...) to an animation class.
///
/// Each map that names a tag puts one fragment span around that element,
/// numbered by the slide's fragment counter.
pub struct FragMap {
    /// The maps, in the order written; an empty class is the default animation.
    pub frag: Vec<Vec<(String, String)>>,
}

/// The class that a map gives `tag`, from entry `i` on.
pub open spec fn class_from(m: Seq<(String, String)>, tag: Seq<char>, i: nat) -> Option<Seq<char>>
    decreases m.len() - i,
{
    if i >= m.len() {
        None
    } else if m[i as int].0@ == tag {
        Some(m[i as int].1@)
    } else {
        class_from(m, tag, i + 1)
    }
}

/// The class that a map gives `tag`: that of its first entry for the tag.
pub open spec fn frag_class(m: Seq<(String, String)>, tag: Seq<char>) -> Option<Seq<char>> {
    class_from(m, tag, 0)
}

/// The counter after one fragment; it stays at its largest value.
pub open spec fn next_index(i: u64) -> u64 {
    if i < u64::MAX {
        (i + 1) as u64
    } else {
        i
    }
}

/// The opening tag of a fragment with a class and an index.
pub open spec fn span_open(class: Seq<char>, i: u64) -> Seq<char> {
    "<span class=\"fragment "@ + class + "\" data-fragment-index=\""@ + dec_spec(i as nat) + "\">"@
}

/// Opening tags, closing tags and the counter after the first `n` maps that
/// name `tag`, from counter `i`.
pub open spec fn frag_heads(maps: Seq<Vec<(String, String)>>, tag: Seq<char>, n: nat, i: u64) -> (Seq<char>, Seq<char>, u64)
    decreases n,
{
    if n == 0 {
        (Seq::empty(), Seq::empty(), i)
    } else {
        let p = frag_heads(maps, tag, (n - 1) as nat, i);
        match frag_class(maps[n - 1]@, tag) {
            Some(c) => (p.0 + span_open(c, p.2), p.1 + "</span>"@, next_index(p.2)),
            None => p,
        }
    }
}

/// The number of maps, among the first `n`, that name `tag`.
pub open spec fn tag_count(maps: Seq<Vec<(String, String)>>, tag: Seq<char>, n: nat) -> nat
    decreases n,
{
    if n == 0 {
        0
    } else {
        tag_count(maps, tag, (n - 1) as nat) + if frag_class(maps[n - 1]@, tag) is Some { 1nat } else { 0nat }
    }
}

/// A text with the fragment spans of `tag` around it, and the counter after it;
/// an empty text stays empty and takes no index.
pub open spec fn frag_wrap_spec(maps: Seq<Vec<(String, String)>>, tag: Seq<char>, text: Seq<char>, i: u64) -> (Seq<char>, u64) {
    if text.len() == 0 {
        (text, i)
    } else {
        let p = frag_heads(maps, tag, maps.len(), i);
        (p.0 + text + p.1, p.2)
    }
}

fn class_of<'a>(m: &'a Vec<(String, String)>, tag: &String) -> (r: Option<&'a String>)
    ensures
        r matches Some(c) ==> frag_class(m@, tag@) == Some(c@),
        r is None ==> frag_class(m@, tag@) is None,
{
    let mut i: usize = 0;
    while i < m.len()
        invariant
            i <= m@.len(),
            class_from(m@, tag@, i as nat) == frag_class(m@, tag@),
        decreases m@.len() - i,
    {
        if m[i].0 == *tag {
            return Some(&m[i].1);
        }
        i = i + 1;
    }
    None
}

impl FragMap {
    /// Wraps a rendered element in the fragment spans of `tag`, numbered from
    /// `counter`, which moves on by one for each span.
    pub fn wrap(&self, tag: &str, text: &str, counter: &mut u64) -> (r: String)
        ensures
            (r@, *final(counter)) == frag_wrap_spec(self.frag@, tag@, text@, *old(counter)),
    {
        if text.is_empty() {
            return String::new();
        }
        let tag = String::from_str(tag);
        let mut head = String::new();
        let mut end = String::new();
        let mut k: usize = 0;
        while k < self.frag.len()
            invariant
                k <= self.frag@.len(),
                (head@, end@, *counter) == frag_heads(self.frag@, tag@, k as nat, *old(counter)),
            decreases self.frag@.len() - k,
        {
            match class_of(&self.frag[k], &tag) {
                Some(c) => {
                    let i = *counter;
                    head.append("<span class=\"fragment ");
                    head.append(c.as_str());
                    head.append("\" data-fragment-index=\"");
                    let d = dec(i);
                    head.append(d.as_str());
                    head.append("\">");
                    end.append("</span>");
                    *counter = if i < u64::MAX { i + 1 } else { i };
                    assert(head@ =~= frag_heads(self.frag@, tag@, k as nat, *old(counter)).0 + span_open(c@, i));
                },
                None => {},
            }
            k = k + 1;
        }
        let mut r = head;
        r.append(text);
        r.append(end.as_str());
        r
    }
}

} // verus!
