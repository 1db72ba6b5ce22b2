//! The focused application's class, reduced to a coarse context.
use vstd::prelude::*;

use crate::text::{
    ascii_lowercase, chars_of, find_char, has_prefix, index_of_char, lines, lower_range_eq,
    next_line, skip_char, drop_trailing_char, skip_whitespace, trim, trim_char, trim_range,
    trim_start, lemma_lines_cons,
};

verus! {

#[derive(Debug, Clone, Copy, PartialEq, Eq, Structural)]
pub enum FocusContext {
    Coding,
    Browsing,
    Other,
}

impl FocusContext {
    pub open spec fn spec_label(self) -> Seq<char> {
        match self {
            FocusContext::Coding => "coding"@,
            FocusContext::Browsing => "browsing"@,
            FocusContext::Other => "another application"@,
        }
    }

    pub fn label(self) -> (r: &'static str)
        ensures
            r@ == self.spec_label(),
    {
        match self {
            FocusContext::Coding => "coding",
            FocusContext::Browsing => "browsing",
            FocusContext::Other => "another application",
        }
    }
}

/// The first line whose text, after leading whitespace, starts with `"class"`.
pub open spec fn class_line(ls: Seq<Seq<char>>) -> Option<Seq<char>>
    decreases ls.len(),
{
    if ls.len() == 0 {
        None
    } else if "\"class\""@.is_prefix_of(trim_start(ls[0])) {
        Some(ls[0])
    } else {
        class_line(ls.drop_first())
    }
}

/// `line.split(':').nth(1)`: the text between the first and the second `':'`.
pub open spec fn second_field(line: Seq<char>) -> Option<Seq<char>> {
    let i = index_of_char(line, ':');
    if i < 0 || i >= line.len() {
        None
    } else {
        let rest = line.skip(i + 1);
        Some(rest.take(index_of_char(rest, ':')))
    }
}

/// The class value of the active window in `hyprctl activewindow -j` output.
pub open spec fn window_class(json: Seq<char>) -> Option<Seq<char>> {
    match class_line(lines(json)) {
        Some(line) => match second_field(line) {
            Some(field) => Some(trim_char(trim_char(trim(field), ','), '"')),
            None => None,
        },
        None => None,
    }
}

/// The context that a lowercased window class stands for.
pub open spec fn context_of_class(class: Seq<char>) -> FocusContext {
    if class == "code"@ || class == "code-oss"@ || class == "cursor"@ || class == "zed"@ || class
        == "neovide"@ {
        FocusContext::Coding
    } else if class == "firefox"@ || class == "zen"@ || class == "chromium"@ || class
        == "google-chrome"@ || class == "brave-browser"@ {
        FocusContext::Browsing
    } else {
        FocusContext::Other
    }
}

proof fn lemma_index_bounds(s: Seq<char>, c: char)
    ensures
        0 <= index_of_char(s, c) <= s.len(),
    decreases s.len(),
{
    if s.len() > 0 && s[0] != c {
        lemma_index_bounds(s.drop_first(), c);
    }
}

/// Bounds of the class value within `v`, if the text has one.
fn window_class_range(v: &Vec<char>) -> (r: Option<(usize, usize)>)
    ensures
        match r {
            Some((a, b)) => a <= b <= v@.len() && window_class(v@) == Some(
                v@.subrange(a as int, b as int),
            ),
            None => window_class(v@) is None,
        },
{
    let key = chars_of("\"class\"");
    let mut pos: usize = 0;
    assert(v@.skip(0) =~= v@);
    while pos < v.len()
        invariant
            pos <= v@.len(),
            key@ == "\"class\""@,
            class_line(lines(v@)) == class_line(lines(v@.skip(pos as int))),
        decreases v@.len() - pos,
    {
        let (end, next) = next_line(v, pos);
        let ghost line = v@.subrange(pos as int, end as int);
        proof {
            lemma_lines_cons(v@.skip(pos as int), line, lines(v@.skip(next as int)));
        }
        let start = skip_whitespace(v, pos, end);
        if has_prefix(v, start, end, &key) {
            assert(class_line(lines(v@)) == Some(line));
            let colon = find_char(v, pos, end, ':');
            if colon == end {
                return None;
            }
            let second = find_char(v, colon + 1, end, ':');
            proof {
                lemma_index_bounds(line, ':');
                assert(line.skip(colon - pos + 1) =~= v@.subrange(colon + 1, end as int));
                assert(line.skip(colon - pos + 1).take(second - colon - 1) =~= v@.subrange(
                    colon + 1,
                    second as int,
                ));
            }
            let (a, b) = trim_range(v, colon + 1, second);
            let a1 = skip_char(v, a, b, ',');
            let b1 = drop_trailing_char(v, a1, b, ',');
            let a2 = skip_char(v, a1, b1, '"');
            let b2 = drop_trailing_char(v, a2, b1, '"');
            return Some((a2, b2));
        }
        pos = next;
    }
    assert(v@.skip(pos as int) =~= Seq::<char>::empty());
    None
}

/// `"class": "<value>"` of `hyprctl activewindow -j` output; the title and the
/// other fields are not read.
pub fn parse_window_class(json: &str) -> (r: Option<&str>)
    ensures
        match r {
            Some(c) => window_class(json@) == Some(c@),
            None => window_class(json@) is None,
        },
{
    let v = chars_of(json);
    match window_class_range(&v) {
        Some((a, b)) => Some(json.substring_char(a, b)),
        None => None,
    }
}

fn class_is_one_of(v: &Vec<char>, lo: usize, hi: usize, names: &[&str]) -> (b: bool)
    requires
        lo <= hi <= v@.len(),
    ensures
        b == exists|i: int|
            0 <= i < names@.len() && ascii_lowercase(v@.subrange(lo as int, hi as int))
                == #[trigger] names@[i]@,
{
    let mut i: usize = 0;
    while i < names.len()
        invariant
            lo <= hi <= v@.len(),
            i <= names@.len(),
            forall|j: int|
                0 <= j < i ==> ascii_lowercase(v@.subrange(lo as int, hi as int))
                    != #[trigger] names@[j]@,
        decreases names@.len() - i,
    {
        let name = chars_of(names[i]);
        if lower_range_eq(v, lo, hi, &name) {
            return true;
        }
        i = i + 1;
    }
    false
}

/// The focus context of the active window described by `hyprctl activewindow -j`
/// output, or `None` when it names no class.
pub fn context_of_window(json: &str) -> (r: Option<FocusContext>)
    ensures
        r == match window_class(json@) {
            Some(class) => Some(context_of_class(ascii_lowercase(class))),
            None => None,
        },
{
    let v = chars_of(json);
    match window_class_range(&v) {
        Some((a, b)) => {
            let coding = ["code", "code-oss", "cursor", "zed", "neovide"];
            let browsing = ["firefox", "zen", "chromium", "google-chrome", "brave-browser"];
            let ghost lc = ascii_lowercase(v@.subrange(a as int, b as int));
            if class_is_one_of(&v, a, b, &coding) {
                proof {
                    let i = choose|i: int| 0 <= i < coding@.len() && lc == #[trigger] coding@[i]@;
                    assert(lc == "code"@ || lc == "code-oss"@ || lc == "cursor"@ || lc == "zed"@
                        || lc == "neovide"@);
                }
                Some(FocusContext::Coding)
            } else if class_is_one_of(&v, a, b, &browsing) {
                proof {
                    assert(lc != coding@[0]@ && lc != coding@[1]@ && lc != coding@[2]@ && lc
                        != coding@[3]@ && lc != coding@[4]@);
                    let i = choose|i: int|
                        0 <= i < browsing@.len() && lc == #[trigger] browsing@[i]@;
                    assert(lc == "firefox"@ || lc == "zen"@ || lc == "chromium"@ || lc
                        == "google-chrome"@ || lc == "brave-browser"@);
                }
                Some(FocusContext::Browsing)
            } else {
                proof {
                    assert(lc != coding@[0]@ && lc != coding@[1]@ && lc != coding@[2]@ && lc
                        != coding@[3]@ && lc != coding@[4]@);
                    assert(lc != browsing@[0]@ && lc != browsing@[1]@ && lc != browsing@[2]@
                        && lc != browsing@[3]@ && lc != browsing@[4]@);
                }
                Some(FocusContext::Other)
            }
        },
        None => None,
    }
}

// ---------------------------------------------------------------------------
// Laws
// ---------------------------------------------------------------------------
/// The focus context of a window class, ignoring ASCII case: the editors code,
/// code-oss, cursor, zed and neovide are coding; the browsers firefox, zen,
/// chromium, google-chrome and brave-browser are browsing; any other class is
/// another application.
pub proof fn law_focus_context_of_class(class: Seq<char>)
    ensures
        ({
            let lc = ascii_lowercase(class);
            let coding = lc == "code"@ || lc == "code-oss"@ || lc == "cursor"@ || lc == "zed"@
                || lc == "neovide"@;
            let browsing = lc == "firefox"@ || lc == "zen"@ || lc == "chromium"@ || lc
                == "google-chrome"@ || lc == "brave-browser"@;
            &&& coding ==> context_of_class(lc) == FocusContext::Coding
            &&& browsing ==> context_of_class(lc) == FocusContext::Browsing
            &&& !coding && !browsing ==> context_of_class(lc) == FocusContext::Other
        }),
{
    reveal_strlit("code");
    reveal_strlit("code-oss");
    reveal_strlit("cursor");
    reveal_strlit("zed");
    reveal_strlit("neovide");
    reveal_strlit("firefox");
    reveal_strlit("zen");
    reveal_strlit("chromium");
    reveal_strlit("google-chrome");
    reveal_strlit("brave-browser");
    assert("firefox"@.len() != "code"@.len());
    assert("firefox"@.len() != "code-oss"@.len());
    assert("firefox"@.len() != "cursor"@.len());
    assert("firefox"@.len() != "zed"@.len());
    assert("firefox"@[0] != "neovide"@[0]);
    assert("zen"@.len() != "code"@.len());
    assert("zen"@.len() != "code-oss"@.len());
    assert("zen"@.len() != "cursor"@.len());
    assert("zen"@[2] != "zed"@[2]);
    assert("zen"@.len() != "neovide"@.len());
    assert("chromium"@.len() != "code"@.len());
    assert("chromium"@[1] != "code-oss"@[1]);
    assert("chromium"@.len() != "cursor"@.len());
    assert("chromium"@.len() != "zed"@.len());
    assert("chromium"@.len() != "neovide"@.len());
    assert("google-chrome"@.len() != "code"@.len());
    assert("google-chrome"@.len() != "code-oss"@.len());
    assert("google-chrome"@.len() != "cursor"@.len());
    assert("google-chrome"@.len() != "zed"@.len());
    assert("google-chrome"@.len() != "neovide"@.len());
    assert("brave-browser"@.len() != "code"@.len());
    assert("brave-browser"@.len() != "code-oss"@.len());
    assert("brave-browser"@.len() != "cursor"@.len());
    assert("brave-browser"@.len() != "zed"@.len());
    assert("brave-browser"@.len() != "neovide"@.len());
}

} // verus!
