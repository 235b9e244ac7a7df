//! Document model: page background templates, the keys they are stored
//! under, and moving pages within a section.

use vstd::prelude::*;
use vstd::string::*;
use crate::text::same_text;

verus! {

/// Page background template.
#[derive(Debug, Clone, Copy, PartialEq, Eq, Structural, Hash)]
pub enum PageTemplate {
    Blank,
    Lined,
    Grid,
    Dotted,
    Isometric,
    MusicStaff,
    Cornell,
}

/// The name shown for a template.
pub open spec fn template_name(t: PageTemplate) -> Seq<char> {
    match t {
        PageTemplate::Blank => "Blank"@,
        PageTemplate::Lined => "Lined"@,
        PageTemplate::Grid => "Grid"@,
        PageTemplate::Dotted => "Dotted"@,
        PageTemplate::Isometric => "Isometric"@,
        PageTemplate::MusicStaff => "Music Staff"@,
        PageTemplate::Cornell => "Cornell Notes"@,
    }
}

/// Every template, in declaration order.
pub open spec fn all_templates() -> Seq<PageTemplate> {
    seq![
        PageTemplate::Blank,
        PageTemplate::Lined,
        PageTemplate::Grid,
        PageTemplate::Dotted,
        PageTemplate::Isometric,
        PageTemplate::MusicStaff,
        PageTemplate::Cornell,
    ]
}

impl PageTemplate {
    /// The name shown for this template.
    pub fn display_name(&self) -> (res: &'static str)
        ensures
            res@ == template_name(*self),
    {
        match self {
            PageTemplate::Blank => "Blank",
            PageTemplate::Lined => "Lined",
            PageTemplate::Grid => "Grid",
            PageTemplate::Dotted => "Dotted",
            PageTemplate::Isometric => "Isometric",
            PageTemplate::MusicStaff => "Music Staff",
            PageTemplate::Cornell => "Cornell Notes",
        }
    }

    /// Every template, in declaration order.
    pub fn all() -> (res: Vec<PageTemplate>)
        ensures
            res@ == all_templates(),
    {
        let v = vec![
            PageTemplate::Blank,
            PageTemplate::Lined,
            PageTemplate::Grid,
            PageTemplate::Dotted,
            PageTemplate::Isometric,
            PageTemplate::MusicStaff,
            PageTemplate::Cornell,
        ];
        assert(v@ =~= all_templates());
        v
    }

    /// The key this template is stored under: its name in lower case
    /// without spaces.
    pub fn storage_key(&self) -> (res: &'static str)
        ensures
            res@ == template_key(*self),
    {
        match self {
            PageTemplate::Blank => "blank",
            PageTemplate::Lined => "lined",
            PageTemplate::Grid => "grid",
            PageTemplate::Dotted => "dotted",
            PageTemplate::Isometric => "isometric",
            PageTemplate::MusicStaff => "musicstaff",
            PageTemplate::Cornell => "cornell",
        }
    }

    /// The template stored under `key`; an unknown key reads as a blank page.
    pub fn from_storage_key(key: &str) -> (res: PageTemplate)
        ensures
            res == template_of_key(key@),
    {
        proof {
            reveal_strlit("lined");
            reveal_strlit("grid");
            reveal_strlit("dotted");
            reveal_strlit("isometric");
            reveal_strlit("musicstaff");
            reveal_strlit("cornell");
        }
        if same_text(key, "lined") {
            PageTemplate::Lined
        } else if same_text(key, "grid") {
            PageTemplate::Grid
        } else if same_text(key, "dotted") {
            PageTemplate::Dotted
        } else if same_text(key, "isometric") {
            PageTemplate::Isometric
        } else if same_text(key, "musicstaff") {
            PageTemplate::MusicStaff
        } else if same_text(key, "cornell") {
            PageTemplate::Cornell
        } else {
            PageTemplate::Blank
        }
    }
}

/// The key a template is stored under.
pub open spec fn template_key(t: PageTemplate) -> Seq<char> {
    match t {
        PageTemplate::Blank => "blank"@,
        PageTemplate::Lined => "lined"@,
        PageTemplate::Grid => "grid"@,
        PageTemplate::Dotted => "dotted"@,
        PageTemplate::Isometric => "isometric"@,
        PageTemplate::MusicStaff => "musicstaff"@,
        PageTemplate::Cornell => "cornell"@,
    }
}

/// The template stored under a key; unknown keys give a blank page.
pub open spec fn template_of_key(k: Seq<char>) -> PageTemplate {
    if k == "lined"@ {
        PageTemplate::Lined
    } else if k == "grid"@ {
        PageTemplate::Grid
    } else if k == "dotted"@ {
        PageTemplate::Dotted
    } else if k == "isometric"@ {
        PageTemplate::Isometric
    } else if k == "musicstaff"@ {
        PageTemplate::MusicStaff
    } else if k == "cornell"@ {
        PageTemplate::Cornell
    } else {
        PageTemplate::Blank
    }
}

/// Reading back the key a template is stored under gives the template.
pub proof fn lemma_storage_key_round_trip(t: PageTemplate)
    ensures
        template_of_key(template_key(t)) == t,
{
    reveal_strlit("blank");
    reveal_strlit("lined");
    reveal_strlit("grid");
    reveal_strlit("dotted");
    reveal_strlit("isometric");
    reveal_strlit("musicstaff");
    reveal_strlit("cornell");
    let k = template_key(t);
    assert(k.len() != "lined"@.len() || k[0] != 'l' || t == PageTemplate::Lined);
    assert(k.len() != "grid"@.len() || k[0] != 'g' || t == PageTemplate::Grid);
    assert(k.len() != "dotted"@.len() || k[0] != 'd' || t == PageTemplate::Dotted);
    assert(k.len() != "isometric"@.len() || k[0] != 'i' || t == PageTemplate::Isometric);
    assert(k.len() != "musicstaff"@.len() || k[0] != 'm' || t == PageTemplate::MusicStaff);
    assert(k.len() != "cornell"@.len() || k[0] != 'c' || t == PageTemplate::Cornell);
}

/// The order of items after moving the one at `from` to position `to`.
pub open spec fn moved<T>(s: Seq<T>, from: int, to: int) -> Seq<T> {
    s.remove(from).insert(to, s[from])
}

/// Move the item at `from` so that it ends up at position `to`, as a page is
/// moved within its section. Nothing changes unless both positions are
/// inside the list; the result says whether the item moved.
pub fn move_item<T>(items: &mut Vec<T>, from: usize, to: usize) -> (res: bool)
    ensures
        res == (from < old(items)@.len() && to < old(items)@.len()),
        res ==> final(items)@ == moved(old(items)@, from as int, to as int),
        !res ==> final(items)@ == old(items)@,
{
    if from < items.len() && to < items.len() {
        let item = items.remove(from);
        items.insert(to, item);
        true
    } else {
        false
    }
}

/// Moving an item and then moving it back restores the original order.
pub proof fn lemma_move_back<T>(s: Seq<T>, from: int, to: int)
    requires
        0 <= from < s.len(),
        0 <= to < s.len(),
    ensures
        moved(moved(s, from, to), to, from) == s,
{
    let m = moved(s, from, to);
    assert(m[to] == s[from]);
    assert(m.remove(to) =~= s.remove(from));
    assert(moved(m, to, from) =~= s);
}

/// Moving keeps every item: the length is unchanged and the moved item is at
/// its new place.
pub proof fn lemma_move_keeps_items<T>(s: Seq<T>, from: int, to: int)
    requires
        0 <= from < s.len(),
        0 <= to < s.len(),
    ensures
        moved(s, from, to).len() == s.len(),
        moved(s, from, to)[to] == s[from],
        moved(s, from, to).to_multiset() == s.to_multiset(),
{
    broadcast use vstd::multiset::group_multiset_axioms;

    vstd::seq_lib::to_multiset_remove(s, from);
    vstd::seq_lib::to_multiset_insert(s.remove(from), to, s[from]);
    assert(s.to_multiset().count(s[from]) > 0) by {
        vstd::seq_lib::to_multiset_contains(s, s[from]);
    }
    assert(s.to_multiset().remove(s[from]).insert(s[from]) =~= s.to_multiset());
}

} // verus!
