use vstd::prelude::*;

use crate::strings::{join_strings, join_with, push_char, replace_all, replace_string, split_on, split_string};
use crate::text::{empty_text, text_of, Text, TextView};

verus! {

/// The search bar: what the user typed to look for.
#[derive(Clone, Debug, PartialEq)]
pub struct Search {
    pub text: Text,
}

impl Search {
    /// An empty search bar.
    pub fn new() -> (s: Search)
        ensures
            s.text@ == empty_text(),
            s.text.wf(),
    {
        Search { text: Text::new() }
    }
}

/// Which half of the replace bar is being typed.
#[derive(Clone, Copy, Debug, PartialEq, Eq, Structural)]
pub enum ReplaceStage {
    Search,
    Replacement,
}

/// The replace bar: one line of the form `search/replacement`.
#[derive(Clone, Debug, PartialEq)]
pub struct Replace {
    pub text: Text,
    pub stage: ReplaceStage,
}

/// The first line of a buffer, if it has one.
pub open spec fn first_line(t: TextView) -> Option<Seq<char>> {
    if t.lines.len() == 0 {
        None
    } else {
        Some(t.lines[0])
    }
}

/// The piece of the bar before its first slash.
pub open spec fn search_part(t: TextView) -> Seq<char> {
    match first_line(t) {
        None => Seq::empty(),
        Some(l) => split_on(l, '/')[0],
    }
}

/// The piece of the bar between its first and second slash.
pub open spec fn replacement_part(t: TextView) -> Seq<char> {
    match first_line(t) {
        None => Seq::empty(),
        Some(l) => if split_on(l, '/').len() >= 2 {
            split_on(l, '/')[1]
        } else {
            Seq::empty()
        },
    }
}

/// What the bar asks to replace: the text between the first and second
/// slash, and the text after the second slash (which may hold more slashes),
/// when the first line has a slash.
pub open spec fn replacement_request(t: TextView) -> Option<(Seq<char>, Seq<char>)> {
    match first_line(t) {
        None => None,
        Some(l) => {
            let parts = split_on(l, '/');
            if parts.len() < 2 {
                None
            } else {
                Some((parts[1], join_with(parts.skip(2), '/')))
            }
        },
    }
}

/// What applying the bar gives: the bar's own content with every
/// occurrence of the searched text replaced, when there is a non-empty
/// searched text.
pub open spec fn replacement_result(t: TextView) -> Option<Seq<char>> {
    match replacement_request(t) {
        None => None,
        Some((search, rep)) => if search.len() == 0 {
            None
        } else {
            Some(replace_all(join_with(t.lines, '\n'), search, rep))
        },
    }
}

impl Replace {
    /// A replace bar holding a single slash.
    pub fn new() -> (r: Replace)
        ensures
            r.text@ == text_of(seq!['/']),
            r.stage == ReplaceStage::Search,
            r.text.wf(),
    {
        let mut s = String::new();
        push_char(&mut s, '/');
        let text = Text::from_string(s);
        proof {
            let v = seq!['/'];
            assert(v.drop_last() =~= Seq::<char>::empty());
            assert(s@ =~= v);
            assert(split_on(v.drop_last(), '\n') =~= seq![Seq::<char>::empty()]);
            assert(Seq::<char>::empty().push('/') =~= v);
            assert(split_on(v, '\n') =~= seq![v]);
        }
        Replace { text, stage: ReplaceStage::Search }
    }

    /// The text before the first slash of the bar's first line.
    pub fn search_text(&self) -> (s: String)
        ensures
            s@ == search_part(self.text@),
    {
        if self.text.lines.len() == 0 {
            return String::new();
        }
        let mut parts = split_string(self.text.lines[0].as_str(), '/');
        proof {
            crate::strings::lemma_split_on_nonempty(self.text.lines@[0]@, '/');
        }
        parts.swap_remove(0)
    }

    /// The text between the first and second slash of the bar's first line.
    pub fn replacement_text(&self) -> (s: String)
        ensures
            s@ == replacement_part(self.text@),
    {
        if self.text.lines.len() == 0 {
            return String::new();
        }
        let mut parts = split_string(self.text.lines[0].as_str(), '/');
        if parts.len() < 2 {
            return String::new();
        }
        parts.swap_remove(1)
    }

    /// The bar's content with the requested replacement applied, as a new
    /// buffer; `None` when the first line has no slash or the searched text
    /// is empty.
    pub fn get_replacement(&self) -> (r: Option<Text>)
        ensures
            match replacement_result(self.text@) {
                None => r is None,
                Some(c) => r matches Some(t) && t@ == text_of(c) && t.wf(),
            },
    {
        if self.text.lines.len() == 0 {
            return None;
        }
        let parts = split_string(self.text.lines[0].as_str(), '/');
        if parts.len() < 2 {
            return None;
        }
        let ghost l = self.text.lines@[0]@;
        assert(first_line(self.text@) == Some(l));
        let mut rest: Vec<String> = Vec::new();
        let mut k: usize = 2;
        while k < parts.len()
            invariant
                2 <= k <= parts.len(),
                parts@.len() == split_on(l, '/').len(),
                forall|i: int| 0 <= i < parts@.len() ==> #[trigger] parts@[i]@ == split_on(l, '/')[i],
                rest@.len() == k - 2,
                forall|i: int| 0 <= i < rest@.len() ==> #[trigger] rest@[i]@ == split_on(l, '/')[i + 2],
            decreases parts.len() - k,
        {
            rest.push(parts[k].clone());
            k = k + 1;
        }
        let search = &parts[1];
        let rep = join_strings(&rest, '/');
        proof {
            assert(rest@.map_values(|p: String| p@) =~= split_on(l, '/').skip(2));
        }
        if search.as_str().is_empty() {
            return None;
        }
        let full = self.text.to_content();
        let replaced = replace_string(full.as_str(), search.as_str(), rep.as_str());
        Some(Text::from_string(replaced))
    }
}

} // verus!
