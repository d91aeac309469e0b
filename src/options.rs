use crate::text::{camel_spec, dec, dec_spec, escape, escape_spec, lower_camelcase};
use vstd::prelude::*;

verus! {

/// A value of a Reveal.js option.
pub enum JsType {
    /// `null`.
    Null,
    /// A boolean.
    Bool(bool),
    /// An integer.
    Int(u32),
    /// A number with a fraction, as written.
    Number(String),
    /// A string, written quoted and escaped.
    Str(String),
    /// A list of values.
    List(Vec<JsType>),
    /// Named values; the names are written in lower camel case.
    Dict(Vec<(String, JsType)>),
}

/// Other Reveal.js options, given to `Reveal.initialize`.
pub struct JsOption {
    /// The options, by name, in order.
    pub inner: Vec<(String, JsType)>,
}

/// Reveal.js plugins: the plugin object names and their script files.
pub struct JsPlugin {
    /// The plugins, by object name, with their script paths.
    pub inner: Vec<(String, Vec<String>)>,
}

/// The script text of a value.
pub open spec fn js_html(t: JsType) -> Seq<char>
    decreases t, 1nat, 0nat,
{
    match t {
        JsType::Null => "null"@,
        JsType::Bool(b) => if b { "true"@ } else { "false"@ },
        JsType::Int(n) => dec_spec(n as nat),
        JsType::Number(s) => s@,
        JsType::Str(s) => "\""@ + escape_spec(s@) + "\""@,
        JsType::List(v) => "["@ + js_items(t, v@.len()) + "]"@,
        JsType::Dict(v) => "{"@ + js_items(t, v@.len()) + "}"@,
    }
}

/// The first `n` items of a list (joined by `, `) or of a dictionary
/// (`name: value`, joined by a comma and a line break).
pub open spec fn js_items(t: JsType, n: nat) -> Seq<char>
    decreases t, 0nat, n,
{
    match t {
        JsType::List(v) => if n == 0 || n > v@.len() {
            Seq::empty()
        } else if n == 1 {
            js_html(v@[0])
        } else {
            js_items(t, (n - 1) as nat) + ", "@ + js_html(v@[n - 1])
        },
        JsType::Dict(v) => if n == 0 || n > v@.len() {
            Seq::empty()
        } else if n == 1 {
            camel_spec(v@[0].0@) + ": "@ + js_html(v@[0].1)
        } else {
            js_items(t, (n - 1) as nat) + ",\n"@ + camel_spec(v@[n - 1].0@) + ": "@ + js_html(v@[n - 1].1)
        },
        _ => Seq::empty(),
    }
}

/// The first `n` options, each on a line of its own.
pub open spec fn options_html(v: Seq<(String, JsType)>, n: nat) -> Seq<char>
    decreases n,
{
    if n == 0 || n > v.len() {
        Seq::empty()
    } else {
        options_html(v, (n - 1) as nat) + "\n        "@ + camel_spec(v[n - 1].0@) + ": "@ + js_html(v[n - 1].1) + ","@
    }
}

/// The plugin names among the first `n`, each followed by `, `.
pub open spec fn plugin_names(v: Seq<(String, Vec<String>)>, n: nat) -> Seq<char>
    decreases n,
{
    if n == 0 || n > v.len() {
        Seq::empty()
    } else {
        plugin_names(v, (n - 1) as nat) + v[n - 1].0@ + ", "@
    }
}

/// The script tags of the first `n` files.
pub open spec fn script_tags(files: Seq<String>, n: nat) -> Seq<char>
    decreases n,
{
    if n == 0 || n > files.len() {
        Seq::empty()
    } else {
        script_tags(files, (n - 1) as nat) + "<script src=\""@ + files[n - 1]@ + "\"></script>\n"@
    }
}

/// The script tags of the plugins among the first `n`.
pub open spec fn plugin_files(v: Seq<(String, Vec<String>)>, n: nat) -> Seq<char>
    decreases n,
{
    if n == 0 || n > v.len() {
        Seq::empty()
    } else {
        plugin_files(v, (n - 1) as nat) + script_tags(v[n - 1].1@, v[n - 1].1@.len())
    }
}

impl JsType {
    /// The script text of this value.
    pub fn to_html(&self) -> (r: String)
        ensures
            r@ == js_html(*self),
        decreases self, 1nat, 0nat,
    {
        match self {
            JsType::Null => String::from_str("null"),
            JsType::Bool(b) => if *b { String::from_str("true") } else { String::from_str("false") },
            JsType::Int(n) => dec(*n as u64),
            JsType::Number(s) => s.clone(),
            JsType::Str(s) => {
                let mut r = String::from_str("\"");
                let e = escape(s.as_str());
                r.append(e.as_str());
                r.append("\"");
                r
            },
            JsType::List(_) => {
                let mut r = String::from_str("[");
                let e = self.items_to_html();
                r.append(e.as_str());
                r.append("]");
                r
            },
            JsType::Dict(_) => {
                let mut r = String::from_str("{");
                let e = self.items_to_html();
                r.append(e.as_str());
                r.append("}");
                r
            },
        }
    }

    fn items_to_html(&self) -> (r: String)
        ensures
            self matches JsType::List(v) ==> r@ == js_items(*self, v@.len()),
            self matches JsType::Dict(v) ==> r@ == js_items(*self, v@.len()),
        decreases self, 0nat, 0nat,
    {
        let mut r = String::new();
        match self {
            JsType::List(v) => {
                let mut i: usize = 0;
                while i < v.len()
                    invariant
                        *self == JsType::List(*v),
                        i <= v@.len(),
                        r@ == js_items(*self, i as nat),
                    decreases v@.len() - i,
                {
                    if i > 0 {
                        r.append(", ");
                    }
                    proof {
                        assert(decreases_to!(*self => self->List_0));
                        assert(decreases_to!(*v => v[i as int]));
                    }
                    let h = v[i].to_html();
                    r.append(h.as_str());
                    i = i + 1;
                }
            },
            JsType::Dict(v) => {
                let mut i: usize = 0;
                while i < v.len()
                    invariant
                        *self == JsType::Dict(*v),
                        i <= v@.len(),
                        r@ == js_items(*self, i as nat),
                    decreases v@.len() - i,
                {
                    if i > 0 {
                        r.append(",\n");
                    }
                    let k = lower_camelcase(v[i].0.as_str());
                    r.append(k.as_str());
                    r.append(": ");
                    proof {
                        assert(decreases_to!(*self => self->Dict_0));
                        assert(decreases_to!(*v => v[i as int]));
                        assert(decreases_to!(v[i as int] => v[i as int].1));
                    }
                    let h = v[i].1.to_html();
                    r.append(h.as_str());
                    i = i + 1;
                }
            },
            _ => {},
        }
        r
    }
}

impl JsOption {
    /// The options as entries of the `Reveal.initialize` argument, one per line.
    pub fn to_html(&self) -> (r: String)
        ensures
            r@ == options_html(self.inner@, self.inner@.len()),
    {
        let mut r = String::new();
        let mut i: usize = 0;
        while i < self.inner.len()
            invariant
                i <= self.inner@.len(),
                r@ == options_html(self.inner@, i as nat),
            decreases self.inner@.len() - i,
        {
            r.append("\n        ");
            let k = lower_camelcase(self.inner[i].0.as_str());
            r.append(k.as_str());
            r.append(": ");
            let h = self.inner[i].1.to_html();
            r.append(h.as_str());
            r.append(",");
            i = i + 1;
        }
        r
    }
}

impl JsPlugin {
    /// The plugin names, each followed by `, `, and the script tags of their files.
    pub fn name_and_files(&self) -> (r: (String, String))
        ensures
            r.0@ == plugin_names(self.inner@, self.inner@.len()),
            r.1@ == plugin_files(self.inner@, self.inner@.len()),
    {
        let mut names = String::new();
        let mut files = String::new();
        let mut i: usize = 0;
        while i < self.inner.len()
            invariant
                i <= self.inner@.len(),
                names@ == plugin_names(self.inner@, i as nat),
                files@ == plugin_files(self.inner@, i as nat),
            decreases self.inner@.len() - i,
        {
            names.append(self.inner[i].0.as_str());
            names.append(", ");
            let fs = &self.inner[i].1;
            let mut j: usize = 0;
            while j < fs.len()
                invariant
                    i < self.inner@.len(),
                    *fs == self.inner@[i as int].1,
                    j <= fs@.len(),
                    files@ == plugin_files(self.inner@, i as nat) + script_tags(fs@, j as nat),
                decreases fs@.len() - j,
            {
                files.append("<script src=\"");
                files.append(fs[j].as_str());
                files.append("\"></script>\n");
                j = j + 1;
            }
            i = i + 1;
        }
        (names, files)
    }
}

} // verus!
