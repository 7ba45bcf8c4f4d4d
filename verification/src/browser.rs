//! File browser model: a sorted, selectable list of directory entries.
//! Directory enumeration happens outside; this model receives the entries
//! as plain values, sorts them with directories first and case-sensitive
//! lexical order within each group, and tracks the selection.

use vstd::prelude::*;

use crate::text::lemma_lex_le_total;
use crate::text::lemma_lex_le_trans;
use crate::text::lex_le;
use crate::text::str_le;

verus! {

broadcast use vstd::seq_lib::group_to_multiset_ensures;

/// One directory entry, as the listing collaborator reports it.
pub struct BrowserEntry {
    pub name: String,
    pub full_path: String,
    pub is_directory: bool,
}

/// The browser's order: directories before files, then lexical by name.
pub open spec fn entry_le_spec(a: BrowserEntry, b: BrowserEntry) -> bool {
    if a.is_directory != b.is_directory {
        a.is_directory
    } else {
        lex_le(a.name@, b.name@)
    }
}

/// Every pair of entries in `s` is ordered.
pub open spec fn sorted_entries(s: Seq<BrowserEntry>) -> bool {
    forall|i: int, j: int| 0 <= i < j < s.len() ==> entry_le_spec(s[i], s[j])
}

/// Any two entries compare one way or the other.
pub proof fn lemma_entry_le_total(a: BrowserEntry, b: BrowserEntry)
    ensures
        entry_le_spec(a, b) || entry_le_spec(b, a),
{
    if a.is_directory == b.is_directory {
        lemma_lex_le_total(a.name@, b.name@);
    }
}

/// The entry order is transitive.
pub proof fn lemma_entry_le_trans(a: BrowserEntry, b: BrowserEntry, c: BrowserEntry)
    requires
        entry_le_spec(a, b),
        entry_le_spec(b, c),
    ensures
        entry_le_spec(a, c),
{
    if a.is_directory == b.is_directory && b.is_directory == c.is_directory {
        lemma_lex_le_trans(a.name@, b.name@, c.name@);
    }
}

/// Decides the entry order.
fn entry_le(a: &BrowserEntry, b: &BrowserEntry) -> (r: bool)
    ensures
        r == entry_le_spec(*a, *b),
{
    if a.is_directory != b.is_directory {
        a.is_directory
    } else {
        str_le(a.name.as_str(), b.name.as_str())
    }
}

/// Position in `v[0..hi]` before which `e` belongs: every entry before it
/// precedes `e` in the order, and the entry at it (if any) does not.
fn insert_pos(v: &Vec<BrowserEntry>, hi: usize, e: &BrowserEntry) -> (j: usize)
    requires
        hi <= v@.len(),
    ensures
        j <= hi,
        forall|k: int| 0 <= k < j ==> entry_le_spec(v@[k], *e),
        j < hi ==> !entry_le_spec(v@[j as int], *e),
{
    let mut j: usize = 0;
    while j < hi
        invariant
            j <= hi,
            hi <= v@.len(),
            forall|k: int| 0 <= k < j ==> entry_le_spec(v@[k], *e),
        decreases hi - j,
    {
        if !entry_le(&v[j], e) {
            return j;
        }
        j = j + 1;
    }
    j
}

/// Sorts entries with directories first, then case-sensitive lexical order
/// within each group; the result holds exactly the entries given.
fn sort_entries(v: &mut Vec<BrowserEntry>)
    ensures
        sorted_entries(final(v)@),
        final(v)@.to_multiset() == old(v)@.to_multiset(),
        final(v)@.len() == old(v)@.len(),
{
    let ghost orig: Seq<BrowserEntry> = v@;
    if v.len() <= 1 {
        return;
    }
    let mut i: usize = 1;
    while i < v.len()
        invariant
            1 <= i <= v@.len(),
            v@.len() == orig.len(),
            v@.to_multiset() == orig.to_multiset(),
            sorted_entries(v@.take(i as int)),
        decreases v@.len() - i,
    {
        let ghost s0: Seq<BrowserEntry> = v@;
        let e: BrowserEntry = v.remove(i);
        let ghost s1: Seq<BrowserEntry> = v@;
        proof {
            assert(s1 =~= s0.remove(i as int));
            assert(s1.take(i as int) =~= s0.take(i as int));
        }
        let j: usize = insert_pos(v, i, &e);
        v.insert(j, e);
        proof {
            assert(v@ =~= s1.insert(j as int, e));
            // the multiset is unchanged by taking the element out and
            // putting it back
            assert(s0[i as int] == e);
            assert(s1.to_multiset() =~= s0.to_multiset().remove(e));
            assert(v@.to_multiset() =~= s1.to_multiset().insert(e));
            assert(v@.to_multiset() =~= s0.to_multiset());
            // the grown prefix is sorted
            let t = v@.take(i + 1);
            assert(t =~= s1.take(i as int).insert(j as int, e));
            assert forall|p: int, q: int| 0 <= p < q < t.len() implies entry_le_spec(
                t[p],
                t[q],
            ) by {
                let jj: int = j as int;
                if q < jj {
                    assert(t[p] == s1[p] && t[q] == s1[q]);
                } else if p < jj && q == jj {
                    assert(t[p] == s1[p] && t[q] == e);
                } else if p < jj && q > jj {
                    assert(t[p] == s1[p] && t[q] == s1[q - 1]);
                    if q - 1 == jj {
                        // the entry displaced to just after `e` does not
                        // precede it, so it follows it
                        lemma_entry_le_total(s1[jj], e);
                        lemma_entry_le_trans(t[p], e, t[q]);
                    }
                } else if p == jj {
                    assert(t[p] == e && t[q] == s1[q - 1]);
                    lemma_entry_le_total(s1[jj], e);
                    if q - 1 > jj {
                        lemma_entry_le_trans(e, s1[jj], s1[q - 1]);
                    }
                } else {
                    assert(t[p] == s1[p - 1] && t[q] == s1[q - 1]);
                }
            }
            assert(sorted_entries(v@.take(i + 1)));
        }
        i = i + 1;
    }
    proof {
        assert(v@.take(v@.len() as int) =~= v@);
    }
}

/// The directory browser overlay: whether it is open, the selection index,
/// and the sorted entry list when one is loaded.
pub struct FileBrowser {
    pub browser_open: bool,
    pub pointer: usize,
    pub paths: Option<Vec<BrowserEntry>>,
}

impl FileBrowser {
    /// The selection stays inside the entry list (or at zero when there is
    /// nothing to select).
    pub open spec fn wf(&self) -> bool {
        match self.paths {
            Some(v) => (v@.len() == 0 ==> self.pointer == 0) && (v@.len() > 0 ==> self.pointer
                < v@.len()),
            None => self.pointer == 0,
        }
    }

    pub fn new() -> (b: FileBrowser)
        ensures
            !b.browser_open,
            b.pointer == 0,
            b.paths is None,
            b.wf(),
    {
        FileBrowser { browser_open: false, pointer: 0, paths: None }
    }

    /// Installs a directory listing. A successful listing replaces the
    /// entries with the same entries sorted (directories first, lexical by
    /// name within each group), resets the selection and opens the browser;
    /// a failed listing is returned as the error, with the model untouched.
    pub fn open_browser(&mut self, listing: Result<Vec<BrowserEntry>, String>) -> (r: Result<
        (),
        String,
    >)
        ensures
            listing matches Err(m) ==> *final(self) == *old(self) && (r matches Err(e) && e@
                == m@),
            listing matches Ok(es) ==> r is Ok && final(self).browser_open && final(self).pointer
                == 0 && (final(self).paths matches Some(v) && sorted_entries(v@)
                && v@.to_multiset() == es@.to_multiset() && v@.len() == es@.len()),
            listing is Ok ==> final(self).wf(),
    {
        match listing {
            Err(m) => Err(m),
            Ok(mut es) => {
                sort_entries(&mut es);
                self.paths = Some(es);
                self.browser_open = true;
                self.pointer = 0;
                Ok(())
            },
        }
    }

    /// Moves the selection one step up (negative) or down (positive),
    /// saturating at both ends; does nothing without a non-empty listing.
    pub fn move_pointer(&mut self, y: i8)
        ensures
            final(self).browser_open == old(self).browser_open,
            final(self).paths == old(self).paths,
            old(self).paths is None ==> final(self).pointer == old(self).pointer,
            old(self).paths matches Some(v) ==> final(self).pointer == ({
                let len: int = v@.len() as int;
                let p: int = old(self).pointer as int;
                if len == 0 {
                    p
                } else if y < 0 {
                    if p > 0 {
                        p - 1
                    } else {
                        0
                    }
                } else if y > 0 {
                    if p < len - 1 {
                        p + 1
                    } else {
                        p
                    }
                } else {
                    p
                }
            }),
            old(self).wf() ==> final(self).wf(),
    {
        match &self.paths {
            None => {},
            Some(paths) => {
                if paths.len() == 0 {
                    return;
                }
                if y < 0 {
                    if self.pointer > 0 {
                        self.pointer = self.pointer - 1;
                    }
                } else if y > 0 {
                    if self.pointer < paths.len() - 1 {
                        self.pointer = self.pointer + 1;
                    }
                }
            },
        }
    }

    /// Closes the browser and discards the listing.
    pub fn close_browser(&mut self)
        ensures
            !final(self).browser_open,
            final(self).pointer == 0,
            final(self).paths is None,
            final(self).wf(),
    {
        self.browser_open = false;
        self.pointer = 0;
        self.paths = None;
    }

    /// The full path of the selected entry, when one is selected.
    pub fn get_selected_path(&self) -> (r: Option<String>)
        ensures
            match r {
                Some(p) => self.paths matches Some(v) && self.pointer < v@.len() && p@
                    == v@[self.pointer as int].full_path@,
                None => self.paths is None || (self.paths matches Some(v) && self.pointer
                    >= v@.len()),
            },
    {
        match &self.paths {
            Some(paths) => {
                if self.pointer < paths.len() {
                    Some(paths[self.pointer].full_path.clone())
                } else {
                    None
                }
            },
            None => None,
        }
    }

    /// The selected entry, when one is selected.
    pub fn get_selected_entry(&self) -> (r: Option<&BrowserEntry>)
        ensures
            match r {
                Some(e) => self.paths matches Some(v) && self.pointer < v@.len() && *e
                    == v@[self.pointer as int],
                None => self.paths is None || (self.paths matches Some(v) && self.pointer
                    >= v@.len()),
            },
    {
        match &self.paths {
            Some(paths) => {
                if self.pointer < paths.len() {
                    Some(&paths[self.pointer])
                } else {
                    None
                }
            },
            None => None,
        }
    }
}

} // verus!
