use crate::models::{Folder, FolderView};
use crate::order::sort_by;
use crate::rows::{FolderRow, FolderRowView};
use crate::seqs::{keep, lemma_shift_kept, view_all};
use crate::sorting::{pick, sort_positions, Ranked};
use crate::store::{folders_distinct, CacheStore};
use crate::store_resync::{folder_not_of, lemma_keep_folders_distinct};
use crate::text::str_eq;
use vstd::prelude::*;
use vstd::string::*;
use vstd::utf8::*;

verus! {

/// Why the cache refused a change.
#[derive(Clone, Copy, Debug, PartialEq, Eq, Structural)]
pub enum CacheError {
    /// Two of the folders to be stored share a path or a mailbox id.
    FolderClash,
}

impl CacheError {
    /// The error in words.
    pub fn message(&self) -> (s: String)
        ensures
            s@ == "Cache insert error: folders of one account must differ in path and mailbox"@,
    {
        String::from_str("Cache insert error: folders of one account must differ in path and mailbox")
    }
}

/// Whether `a` comes before `b`, or is `b`, in the order of dictionaries: the first byte
/// in which they differ decides, and a leading part comes before the whole.
pub open spec fn lex_le(a: Seq<u8>, b: Seq<u8>) -> bool
    decreases a.len(),
{
    if a.len() == 0 {
        true
    } else if b.len() == 0 {
        false
    } else if a[0] != b[0] {
        a[0] < b[0]
    } else {
        lex_le(a.drop_first(), b.drop_first())
    }
}

/// Whether a folder with path `a` may stand before one with path `b`: the inbox comes
/// first, the others follow in the order of their paths as UTF-8 bytes.
pub open spec fn path_le(a: Seq<char>, b: Seq<char>) -> bool {
    a == "INBOX"@ || (b != "INBOX"@ && lex_le(encode_utf8(a), encode_utf8(b)))
}

/// The order of the folder list.
pub open spec fn folder_order() -> spec_fn(FolderRowView, FolderRowView) -> bool {
    |a: FolderRowView, b: FolderRowView| path_le(a.folder.path, b.folder.path)
}

/// The test for the folders of an account.
pub open spec fn folder_of(account: Seq<char>) -> spec_fn(FolderRowView) -> bool {
    |f: FolderRowView| f.account_id == account
}

/// The folders of a sequence of rows, in the same order.
pub open spec fn folders_of(rows: Seq<FolderRowView>) -> Seq<FolderView> {
    Seq::new(rows.len(), |i: int| rows[i].folder)
}

/// The rows that hold the given folders for an account, in the same order.
pub open spec fn rows_for(account: Seq<char>, folders: Seq<FolderView>) -> Seq<FolderRowView> {
    Seq::new(folders.len(), |i: int| FolderRowView { account_id: account, folder: folders[i] })
}

/// The folder list of an account: the inbox first, the others by path.
pub open spec fn spec_load_folders(rows: Seq<FolderRowView>, account: Seq<char>) -> Seq<FolderView> {
    folders_of(sort_by(keep(rows, folder_of(account)), folder_order()))
}

/// Whether two of the folders share a path or a mailbox id.
pub open spec fn folders_clash(folders: Seq<FolderView>) -> bool {
    exists|i: int, j: int|
        0 <= i < j < folders.len() && ((#[trigger] folders[i]).path == (#[trigger] folders[j]).path
            || folders[i].mailbox_hash == folders[j].mailbox_hash)
}

/// The folder rows after the folders of an account were replaced by the given ones.
pub open spec fn spec_save_folders(
    rows: Seq<FolderRowView>,
    account: Seq<char>,
    folders: Seq<FolderView>,
) -> Seq<FolderRowView> {
    keep(rows, folder_not_of(account)) + rows_for(account, folders)
}

/// Compares two byte strings in the order of dictionaries.
pub fn bytes_le(a: &[u8], b: &[u8]) -> (r: bool)
    ensures
        r == lex_le(a@, b@),
{
    let mut i: usize = 0;
    proof {
        assert(a@.skip(0) =~= a@);
        assert(b@.skip(0) =~= b@);
    }
    loop
        invariant
            i <= a.len(),
            i <= b.len(),
            lex_le(a@, b@) == lex_le(a@.skip(i as int), b@.skip(i as int)),
        decreases a.len() - i,
    {
        if i >= a.len() {
            return true;
        }
        if i >= b.len() {
            return false;
        }
        proof {
            assert(a@.skip(i as int)[0] == a@[i as int]);
            assert(b@.skip(i as int)[0] == b@[i as int]);
            assert(a@.skip(i as int).drop_first() =~= a@.skip(i + 1));
            assert(b@.skip(i as int).drop_first() =~= b@.skip(i + 1));
        }
        if a[i] != b[i] {
            return a[i] < b[i];
        }
        i = i + 1;
    }
}

/// The path of a folder, as the key by which the folder list is ordered.
pub struct FolderKey {
    pub path: String,
}

impl Ranked for FolderKey {
    open spec fn ranks_before(&self, other: &Self) -> bool {
        path_le(self.path@, other.path@)
    }

    fn before(&self, other: &Self) -> (r: bool) {
        if str_eq(self.path.as_str(), "INBOX") {
            true
        } else if str_eq(other.path.as_str(), "INBOX") {
            false
        } else {
            bytes_le(self.path.as_str().as_bytes(), other.path.as_str().as_bytes())
        }
    }
}

/// Whether two of the folders share a path or a mailbox id.
pub fn has_clash(folders: &Vec<Folder>) -> (r: bool)
    ensures
        r == folders_clash(view_all(folders@)),
{
    let ghost fs = view_all(folders@);
    let mut j: usize = 0;
    while j < folders.len()
        invariant
            j <= folders.len(),
            fs == view_all(folders@),
            forall|a: int, b: int|
                0 <= a < b < j ==> (#[trigger] fs[a]).path != (#[trigger] fs[b]).path
                    && fs[a].mailbox_hash != fs[b].mailbox_hash,
        decreases folders.len() - j,
    {
        let mut i: usize = 0;
        while i < j
            invariant
                i <= j < folders.len(),
                fs == view_all(folders@),
                forall|a: int|
                    0 <= a < i ==> (#[trigger] fs[a]).path != fs[j as int].path && fs[a].mailbox_hash
                        != fs[j as int].mailbox_hash,
            decreases j - i,
        {
            assert(folders@[i as int]@ == fs[i as int]);
            assert(folders@[j as int]@ == fs[j as int]);
            if folders[i].mailbox_hash == folders[j].mailbox_hash || str_eq(
                folders[i].path.as_str(),
                folders[j].path.as_str(),
            ) {
                return true;
            }
            i = i + 1;
        }
        j = j + 1;
    }
    false
}

impl CacheStore {
    /// Replaces the folders of an account by the given ones, all of them or none: where
    /// two of the given folders share a path or a mailbox id, nothing changes and the
    /// clash is reported.
    pub fn save_folders(&mut self, account: &str, folders: Vec<Folder>) -> (r: Result<
        (),
        CacheError,
    >)
        requires
            old(self).wf(),
        ensures
            final(self).wf(),
            final(self)@.messages == old(self)@.messages,
            r is Err <==> folders_clash(view_all(folders@)),
            r is Err ==> final(self)@.folders == old(self)@.folders,
            r is Ok ==> final(self)@.folders == spec_save_folders(
                old(self)@.folders,
                account@,
                view_all(folders@),
            ),
    {
        if has_clash(&folders) {
            return Err(CacheError::FolderClash);
        }
        let ghost fs = view_all(folders@);
        let ghost forig = self@.folders;
        let ghost q = folder_not_of(account@);
        let mut j: usize = 0;
        let ghost mut n: int = 0;
        proof {
            assert(forig.take(0) =~= Seq::<FolderRowView>::empty());
            assert(keep(forig.take(0), q) + forig.skip(0) =~= forig);
        }
        while j < self.folders.len()
            invariant
                q == folder_not_of(account@),
                0 <= n <= forig.len(),
                j == keep(forig.take(n), q).len(),
                self@.folders == keep(forig.take(n), q) + forig.skip(n),
                self@.messages == old(self)@.messages,
            decreases forig.len() - n,
        {
            let row = &self.folders[j];
            assert(row@ == self@.folders[j as int]);
            assert(row@ == forig[n]);
            let doomed = str_eq(row.account_id.as_str(), account);
            proof {
                assert(forig.take(n + 1).drop_last() =~= forig.take(n));
                assert(forig.take(n + 1).last() == forig[n]);
                lemma_shift_kept(keep(forig.take(n), q), forig, n);
            }
            if doomed {
                let _ = self.folders.remove(j);
                assert(self@.folders =~= keep(forig.take(n + 1), q) + forig.skip(n + 1));
            } else {
                assert(self@.folders =~= keep(forig.take(n + 1), q) + forig.skip(n + 1));
                j = j + 1;
            }
            proof {
                n = n + 1;
            }
        }
        let ghost others = keep(forig, q);
        proof {
            assert(forig.take(n) =~= forig);
            assert(self@.folders =~= others);
            lemma_keep_folders_distinct(forig, q);
        }
        let mut i: usize = 0;
        while i < folders.len()
            invariant
                i <= folders.len(),
                fs == view_all(folders@),
                !folders_clash(fs),
                others == keep(forig, q),
                q == folder_not_of(account@),
                folders_distinct(others),
                forall|x: int| 0 <= x < others.len() ==> q(#[trigger] others[x]),
                self@.folders == others + rows_for(account@, fs.take(i as int)),
                self@.messages == old(self)@.messages,
            decreases folders.len() - i,
        {
            let row = FolderRow { account_id: String::from_str(account), folder: folders[i].clone() };
            let ghost before = self@.folders;
            assert(row@ == (FolderRowView { account_id: account@, folder: fs[i as int] }));
            self.folders.push(row);
            assert(self@.folders =~= before.push(
                FolderRowView { account_id: account@, folder: fs[i as int] },
            ));
            assert(rows_for(account@, fs.take(i + 1)) =~= rows_for(account@, fs.take(i as int)).push(
                FolderRowView { account_id: account@, folder: fs[i as int] },
            ));
            assert(self@.folders =~= others + rows_for(account@, fs.take(i + 1)));
            i = i + 1;
        }
        proof {
            assert(fs.take(i as int) =~= fs);
            let out = self@.folders;
            assert forall|a: int, b: int|
                0 <= a < out.len() && 0 <= b < out.len() && a != b && (#[trigger] out[a]).account_id
                    == (#[trigger] out[b]).account_id implies out[a].folder.path
                != out[b].folder.path && out[a].folder.mailbox_hash
                != out[b].folder.mailbox_hash by {
                let m = others.len() as int;
                if a < m && b < m {
                    assert(out[a] == others[a] && out[b] == others[b]);
                } else if a >= m && b >= m {
                    assert(out[a].folder == fs[a - m] && out[b].folder == fs[b - m]);
                    if a < b {
                        assert(fs[a - m].path != fs[b - m].path);
                    } else {
                        assert(fs[b - m].path != fs[a - m].path);
                    }
                } else {
                    let c = if a < m { a } else { b };
                    assert(out[c] == others[c]);
                    assert(q(others[c]));
                }
            }
        }
        Ok(())
    }

    /// The folders of an account: the inbox first, the others in the order of their paths.
    pub fn load_folders(&self, account: &str) -> (out: Vec<Folder>)
        ensures
            view_all(out@) == spec_load_folders(self@.folders, account@),
    {
        let ghost rows = self@.folders;
        let ghost p = folder_of(account@);
        let mut pos: Vec<usize> = Vec::new();
        let mut keys: Vec<FolderKey> = Vec::new();
        let mut k: usize = 0;
        proof {
            assert(rows.take(0) =~= Seq::<FolderRowView>::empty());
            assert(pick(rows, pos@) =~= keep(rows.take(0), p));
        }
        while k < self.folders.len()
            invariant
                k <= self.folders.len(),
                rows == self@.folders,
                p == folder_of(account@),
                keys.len() == pos.len(),
                forall|x: int| 0 <= x < pos.len() ==> (#[trigger] pos[x]) < self.folders.len(),
                forall|x: int|
                    0 <= x < pos.len() ==> (#[trigger] keys[x]).path@ == rows[pos[x] as int].folder.path,
                pick(rows, pos@) == keep(rows.take(k as int), p),
            decreases self.folders.len() - k,
        {
            let row = &self.folders[k];
            assert(row@ == rows[k as int]);
            proof {
                assert(rows.take(k + 1).drop_last() =~= rows.take(k as int));
                assert(rows.take(k + 1).last() == rows[k as int]);
            }
            let ghost before = pick(rows, pos@);
            if str_eq(row.account_id.as_str(), account) {
                pos.push(k);
                keys.push(FolderKey { path: row.folder.path.clone() });
                assert(pick(rows, pos@) =~= before.push(rows[k as int]));
            }
            k = k + 1;
        }
        let ghost mine = pick(rows, pos@);
        proof {
            assert(rows.take(k as int) =~= rows);
            assert forall|i: int, j: int| 0 <= i < keys.len() && 0 <= j < keys.len() implies folder_order()(
                mine[i],
                mine[j],
            ) == #[trigger] keys[i].ranks_before(&keys[j]) by {
                assert(keys[i].path@ == rows[pos[i] as int].folder.path);
                assert(keys[j].path@ == rows[pos[j] as int].folder.path);
            }
        }
        let order = sort_positions::<FolderKey, FolderRowView>(
            &keys,
            Ghost(mine),
            Ghost(folder_order()),
        );
        let ghost sorted = pick(mine, order@);
        let mut out: Vec<Folder> = Vec::new();
        let mut x: usize = 0;
        while x < order.len()
            invariant
                x <= order.len(),
                rows == self@.folders,
                mine == pick(rows, pos@),
                sorted == pick(mine, order@),
                forall|y: int| 0 <= y < pos.len() ==> (#[trigger] pos[y]) < self.folders.len(),
                forall|y: int| 0 <= y < order.len() ==> (#[trigger] order[y]) < pos.len(),
                out.len() == x,
                forall|y: int| 0 <= y < x ==> (#[trigger] out[y])@ == sorted[y].folder,
            decreases order.len() - x,
        {
            let row = &self.folders[pos[order[x]]];
            assert(row@ == sorted[x as int]);
            out.push(row.folder.clone());
            x = x + 1;
        }
        assert(view_all(out@) =~= folders_of(sorted));
        out
    }
}

} // verus!
