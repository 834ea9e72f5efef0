//! Character roster handling: ownership checks, display ordering, and the
//! validation of bulk edits.
//!
//! A bulk character edit arrives from the form layer as parallel columns —
//! one vector per field, one position per row. [`CharUpdate::rows`] turns
//! the columns into independent per-row [`CharacterEdit`] values, each
//! carrying its own old and new field pair, and rejects misaligned columns
//! instead of silently pairing the wrong rows. [`CharacterEdit::needs_update`]
//! is the rule deciding whether a row actually changed and is worth a
//! write.

use vstd::prelude::*;
use vstd::assert_multisets_equal;
use crate::data::{Character, Class, WebError};

verus! {

broadcast use vstd::seq_lib::group_to_multiset_ensures;

/// One row of a bulk character edit, with its old and new field values.
#[derive(Clone, Debug)]
pub struct CharacterEdit {
    pub user_id: i32,
    pub character_id: i32,
    pub name: String,
    pub old_name: String,
    pub class_id: i32,
    pub old_class_id: i32,
    pub item_level: i32,
    pub old_item_level: i32,
}

/// A bulk character edit as the form layer decodes it: parallel columns,
/// one position per row.
#[derive(Clone, Debug)]
pub struct CharUpdate {
    pub cuid: Vec<i32>,
    pub cid: Vec<i32>,
    pub cname: Vec<String>,
    pub oldcname: Vec<String>,
    pub cclass_id: Vec<i32>,
    pub oldcclass_id: Vec<i32>,
    pub item_level: Vec<i32>,
    pub olditem_level: Vec<i32>,
}

/// All eight columns hold one entry per row.
pub open spec fn columns_aligned(u: CharUpdate) -> bool {
    &&& u.cuid@.len() == u.cid@.len()
    &&& u.cuid@.len() == u.cname@.len()
    &&& u.cuid@.len() == u.oldcname@.len()
    &&& u.cuid@.len() == u.cclass_id@.len()
    &&& u.cuid@.len() == u.oldcclass_id@.len()
    &&& u.cuid@.len() == u.item_level@.len()
    &&& u.cuid@.len() == u.olditem_level@.len()
}

/// Row `e` is row `i` of the columns.
pub open spec fn edit_matches(u: CharUpdate, i: int, e: CharacterEdit) -> bool {
    &&& e.user_id == u.cuid@[i]
    &&& e.character_id == u.cid@[i]
    &&& e.name == u.cname@[i]
    &&& e.old_name == u.oldcname@[i]
    &&& e.class_id == u.cclass_id@[i]
    &&& e.old_class_id == u.oldcclass_id@[i]
    &&& e.item_level == u.item_level@[i]
    &&& e.old_item_level == u.olditem_level@[i]
}

impl CharUpdate {
    /// The per-row edits, in row order. Misaligned columns are rejected as
    /// `InvalidInput`: pairing fields across rows would corrupt the edit.
    pub fn rows(&self) -> (res: Result<Vec<CharacterEdit>, WebError>)
        ensures
            match res {
                Ok(rows) => {
                    &&& columns_aligned(*self)
                    &&& rows@.len() == self.cuid@.len()
                    &&& forall|i: int|
                        0 <= i < rows@.len() ==> edit_matches(*self, i, #[trigger] rows@[i])
                },
                Err(e) => {
                    &&& e == WebError::InvalidInput
                    &&& !columns_aligned(*self)
                },
            },
    {
        let n = self.cuid.len();
        if self.cid.len() != n || self.cname.len() != n || self.oldcname.len() != n
            || self.cclass_id.len() != n || self.oldcclass_id.len() != n || self.item_level.len()
            != n || self.olditem_level.len() != n {
            return Err(WebError::InvalidInput);
        }
        let mut rows: Vec<CharacterEdit> = Vec::new();
        let mut i: usize = 0;
        while i < n
            invariant
                columns_aligned(*self),
                n == self.cuid@.len(),
                i <= n,
                rows@.len() == i,
                forall|t: int| 0 <= t < i ==> edit_matches(*self, t, #[trigger] rows@[t]),
            decreases n - i,
        {
            rows.push(
                CharacterEdit {
                    user_id: self.cuid[i],
                    character_id: self.cid[i],
                    name: self.cname[i].clone(),
                    old_name: self.oldcname[i].clone(),
                    class_id: self.cclass_id[i],
                    old_class_id: self.oldcclass_id[i],
                    item_level: self.item_level[i],
                    old_item_level: self.olditem_level[i],
                },
            );
            i += 1;
        }
        Ok(rows)
    }
}

impl CharacterEdit {
    /// Did the row change? Only changed rows are worth a storage write.
    pub fn needs_update(&self) -> (b: bool)
        ensures
            b == (self.name@ != self.old_name@ || self.class_id != self.old_class_id
                || self.item_level != self.old_item_level),
    {
        !(self.name == self.old_name) || self.class_id != self.old_class_id || self.item_level
            != self.old_item_level
    }
}

/// Does account `user_id` own character `character_id` among `chars`? The
/// gate every completion toggle must pass.
pub open spec fn owns(chars: Seq<Character>, user_id: i32, character_id: i32) -> bool {
    exists|i: int|
        0 <= i < chars.len() && (#[trigger] chars[i]).id == character_id && chars[i].user_id
            == user_id
}

/// Does account `user_id` own character `character_id`?
pub fn owns_character(chars: &Vec<Character>, user_id: i32, character_id: i32) -> (b: bool)
    ensures
        b == owns(chars@, user_id, character_id),
{
    let n = chars.len();
    let mut i: usize = 0;
    while i < n
        invariant
            n == chars@.len(),
            i <= n,
            forall|t: int|
                0 <= t < i ==> !((#[trigger] chars@[t]).id == character_id && chars@[t].user_id
                    == user_id),
        decreases n - i,
    {
        if chars[i].id == character_id && chars[i].user_id == user_id {
            return true;
        }
        i += 1;
    }
    false
}

/// Does some class with id `class_id` carry the `support` role flag `s`?
pub open spec fn class_has_support(classes: Seq<Class>, class_id: i32, s: bool) -> bool {
    exists|i: int|
        0 <= i < classes.len() && (#[trigger] classes[i]).id == class_id && classes[i].support == s
}

/// The role of class `class_id`: `Some(true)` for a support class,
/// `Some(false)` for a damage dealer, `None` for an unknown class. Where
/// two rows share an id, the first row decides, as a row set with unique
/// ids never has two.
pub fn support_of_class(classes: &Vec<Class>, class_id: i32) -> (res: Option<bool>)
    ensures
        match res {
            Some(s) => class_has_support(classes@, class_id, s),
            None => forall|i: int| 0 <= i < classes@.len() ==> (#[trigger] classes@[i]).id != class_id,
        },
{
    let n = classes.len();
    let mut i: usize = 0;
    while i < n
        invariant
            n == classes@.len(),
            i <= n,
            forall|t: int| 0 <= t < i ==> (#[trigger] classes@[t]).id != class_id,
        decreases n - i,
    {
        if classes[i].id == class_id {
            return Some(classes[i].support);
        }
        i += 1;
    }
    None
}

/// Roster display order: descending item level, ties broken by ascending
/// id.
pub open spec fn char_le(a: Character, b: Character) -> bool {
    a.item_level > b.item_level || (a.item_level == b.item_level && a.id <= b.id)
}

/// The roster stands in display order.
pub open spec fn chars_sorted(chars: Seq<Character>) -> bool {
    forall|i: int, j: int| 0 <= i < j < chars.len() ==> char_le(chars[i], chars[j])
}

/// Brings a roster into display order — descending item level, ties by
/// ascending id. The result is a permutation of the input: same
/// characters, same multiplicities.
pub fn sort_characters_by_level(chars: Vec<Character>) -> (res: Vec<Character>)
    ensures
        chars_sorted(res@),
        res@.to_multiset() == chars@.to_multiset(),
        res@.len() == chars@.len(),
{
    let mut rem = chars;
    let ghost orig = rem@;
    let mut out: Vec<Character> = Vec::new();
    while rem.len() > 0
        invariant
            out@.len() + rem@.len() == orig.len(),
            out@.to_multiset().add(rem@.to_multiset()) == orig.to_multiset(),
            chars_sorted(out@),
            forall|i: int, j: int|
                0 <= i < out@.len() && 0 <= j < rem@.len() ==> char_le(out@[i], rem@[j]),
        decreases rem@.len(),
    {
        let m = char_min_index(&rem);
        let ghost old_out = out@;
        let ghost old_rem = rem@;
        let picked = rem.remove(m);
        out.push(picked);
        proof {
            assert(old_rem.contains(picked));
            assert_multisets_equal!(
                out@.to_multiset().add(rem@.to_multiset()),
                old_out.to_multiset().add(old_rem.to_multiset())
            );
            assert forall|i: int, j: int|
                0 <= i < out@.len() && 0 <= j < rem@.len() implies char_le(out@[i], rem@[j]) by {
                if j < m {
                    assert(rem@[j] == old_rem[j]);
                } else {
                    assert(rem@[j] == old_rem[j + 1]);
                }
            }
        }
    }
    proof {
        assert_multisets_equal!(out@.to_multiset(), orig.to_multiset());
    }
    out
}

/// The index of a character that comes first in display order.
fn char_min_index(chars: &Vec<Character>) -> (m: usize)
    requires
        chars@.len() > 0,
    ensures
        m < chars@.len(),
        forall|t: int| 0 <= t < chars@.len() ==> char_le(chars@[m as int], chars@[t]),
{
    let n = chars.len();
    let mut m: usize = 0;
    let mut k: usize = 1;
    while k < n
        invariant
            n == chars@.len(),
            m < n,
            k <= n,
            forall|t: int| 0 <= t < k ==> char_le(chars@[m as int], chars@[t]),
        decreases n - k,
    {
        let a = &chars[k];
        let b = &chars[m];
        if a.item_level > b.item_level || (a.item_level == b.item_level && a.id <= b.id) {
            m = k;
        }
        k += 1;
    }
    m
}

} // verus!
