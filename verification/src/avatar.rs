//! Which senders have a cached avatar picture, and under which file name.
//! Pictures are stored as "<md5 of the sender in hex>.png"; reading and
//! writing the files is left to the caller.
use vstd::prelude::*;

use crate::bindings::{md5_digest, md5_of};
use crate::store::{hex_encode, hex_spec};
use crate::adapter::ax_reader::eq_literal;
use crate::text::{chars_eq, chars_of, string_of};

verus! {

/// The name under which a sender's avatar is stored: the MD5 of the
/// sender's UTF-8 in lowercase hex.
pub open spec fn sender_hash_spec(sender: Seq<char>) -> Seq<char> {
    hex_spec(md5_of(vstd::utf8::encode_utf8(sender)))
}

/// The stored name of `sender`'s avatar, without extension.
pub fn sender_hash(sender: &str) -> (r: String)
    ensures
        r@ == sender_hash_spec(sender@),
{
    let bytes = sender.as_bytes_vec();
    let digest = md5_digest(bytes.as_slice());
    hex_encode(digest.as_slice())
}

/// `name` without every trailing ".png" (`str::trim_end_matches`).
pub open spec fn strip_png(name: Seq<char>) -> Seq<char>
    decreases name.len(),
{
    if name.len() >= 4 && name.skip(name.len() - 4) == ".png"@ {
        strip_png(name.take(name.len() - 4))
    } else {
        name
    }
}

/// `name` ends with ".png".
pub open spec fn is_png_name(name: Seq<char>) -> bool {
    name.len() >= 4 && name.skip(name.len() - 4) == ".png"@
}

fn ends_with_png(v: &Vec<char>) -> (r: bool)
    ensures
        r == is_png_name(v@),
{
    if v.len() < 4 {
        return false;
    }
    let mut tail: Vec<char> = Vec::new();
    let mut i: usize = v.len() - 4;
    while i < v.len()
        invariant
            v@.len() >= 4,
            v@.len() - 4 <= i <= v@.len(),
            tail@ == v@.subrange(v@.len() - 4, i as int),
        decreases v@.len() - i,
    {
        tail.push(v[i]);
        proof {
            assert(tail@ =~= v@.subrange(v@.len() - 4, i + 1));
        }
        i += 1;
    }
    assert(tail@ =~= v@.skip(v@.len() - 4));
    eq_literal(&tail, ".png")
}

fn strip_png_chars(v: &Vec<char>) -> (r: Vec<char>)
    ensures
        r@ == strip_png(v@),
{
    let mut w: Vec<char> = Vec::new();
    let mut i: usize = 0;
    while i < v.len()
        invariant
            i <= v@.len(),
            w@ == v@.take(i as int),
        decreases v@.len() - i,
    {
        w.push(v[i]);
        proof {
            assert(w@ =~= v@.take(i + 1));
        }
        i += 1;
    }
    assert(w@ =~= v@);
    while ends_with_png(&w)
        invariant
            strip_png(w@) == strip_png(v@),
        decreases w@.len(),
    {
        let ghost before = w@;
        w.pop();
        w.pop();
        w.pop();
        w.pop();
        assert(w@ =~= before.take(before.len() - 4));
    }
    w
}

/// Some element of `v` reads `k`.
pub open spec fn has_name(v: Seq<String>, k: Seq<char>) -> bool {
    exists|j: int| 0 <= j < v.len() && #[trigger] v[j]@ == k
}

/// Some ".png" file among the first `n` names stands for `k`.
pub open spec fn files_give(files: Seq<String>, n: int, k: Seq<char>) -> bool {
    exists|j: int| 0 <= j < n && is_png_name(#[trigger] files[j]@) && strip_png(files[j]@) == k
}

/// The senders with an avatar on disk.
pub struct AvatarCache {
    cache_dir: std::path::PathBuf,
    known_senders: Vec<String>,
}

impl AvatarCache {
    /// The stored names (without extension) known to have a picture.
    pub closed spec fn known(&self) -> Set<Seq<char>> {
        Set::new(|k: Seq<char>| has_name(self.known_senders@, k))
    }

    /// The directory holding the pictures.
    pub closed spec fn dir(&self) -> std::path::PathBuf {
        self.cache_dir
    }

    /// The directory holding the pictures.
    pub fn cache_dir(&self) -> (r: &std::path::PathBuf)
        ensures
            *r == self.dir(),
    {
        &self.cache_dir
    }

    /// The cache of directory `cache_dir` holding the files `file_names`:
    /// every ".png" file names a sender's picture.
    pub fn from_files(cache_dir: std::path::PathBuf, file_names: &Vec<String>) -> (r: Self)
        ensures
            r.dir() == cache_dir,
            forall|k: Seq<char>| #[trigger] r.known().contains(k) <==> files_give(file_names@, file_names@.len() as int, k),
    {
        let mut known: Vec<String> = Vec::new();
        let mut i: usize = 0;
        while i < file_names.len()
            invariant
                i <= file_names@.len(),
                forall|k: Seq<char>|
                    #![trigger has_name(known@, k)]
                    #![trigger files_give(file_names@, i as int, k)]
                    has_name(known@, k) <==> files_give(file_names@, i as int, k),
            decreases file_names@.len() - i,
        {
            let v = chars_of(file_names[i].as_str());
            let ghost before = known@;
            if ends_with_png(&v) {
                let name = string_of(&strip_png_chars(&v));
                known.push(name);
            }
            proof {
                assert forall|k: Seq<char>|
                    #![trigger has_name(known@, k)]
                    #![trigger files_give(file_names@, i + 1, k)]
                    has_name(known@, k) <==> files_give(file_names@, i + 1, k) by {
                    if has_name(known@, k) {
                        let j = choose|j: int| 0 <= j < known@.len() && #[trigger] known@[j]@ == k;
                        if j == before.len() {
                            assert(is_png_name(file_names@[i as int]@) && strip_png(file_names@[i as int]@) == k);
                        } else {
                            assert(before[j]@ == k);
                            assert(has_name(before, k));
                            assert(files_give(file_names@, i as int, k));
                            let m = choose|m: int|
                                0 <= m < i && is_png_name(#[trigger] file_names@[m]@) && strip_png(file_names@[m]@) == k;
                            assert(0 <= m < i + 1);
                        }
                    }
                    if files_give(file_names@, i + 1, k) {
                        let j = choose|j: int|
                            0 <= j < i + 1 && is_png_name(#[trigger] file_names@[j]@) && strip_png(file_names@[j]@) == k;
                        if j == i {
                            assert(known@[before.len() as int]@ == k);
                        } else {
                            assert(files_give(file_names@, i as int, k));
                            assert(has_name(before, k));
                            let m = choose|m: int| 0 <= m < before.len() && #[trigger] before[m]@ == k;
                            assert(known@[m]@ == k);
                        }
                    }
                }
            }
            i += 1;
        }
        let r = AvatarCache { cache_dir, known_senders: known };
        assert forall|k: Seq<char>| #[trigger] r.known().contains(k) <==> files_give(file_names@, file_names@.len() as int, k) by {
            assert(r.known().contains(k) == has_name(known@, k));
        }
        r
    }

    fn knows(&self, hash: &Vec<char>) -> (r: bool)
        ensures
            r == self.known().contains(hash@),
    {
        let mut i: usize = 0;
        while i < self.known_senders.len()
            invariant
                i <= self.known_senders@.len(),
                forall|j: int| 0 <= j < i ==> #[trigger] self.known_senders@[j]@ != hash@,
            decreases self.known_senders@.len() - i,
        {
            if chars_eq(&chars_of(self.known_senders[i].as_str()), hash) {
                assert(self.known_senders@[i as int]@ == hash@);
                return true;
            }
            i += 1;
        }
        false
    }

    /// Whether `sender` has a cached picture.
    pub fn has_avatar(&self, sender: &str) -> (r: bool)
        ensures
            r == self.known().contains(sender_hash_spec(sender@)),
    {
        let hash = sender_hash(sender);
        self.knows(&chars_of(hash.as_str()))
    }

    /// The file name of `sender`'s picture within the cache directory, when
    /// one is known.
    pub fn get_avatar_path(&self, sender: &str) -> (r: Option<String>)
        ensures
            match r {
                Some(name) => self.known().contains(sender_hash_spec(sender@)) && name@ == sender_hash_spec(
                    sender@,
                ) + ".png"@,
                None => !self.known().contains(sender_hash_spec(sender@)),
            },
    {
        let hash = sender_hash(sender);
        if self.knows(&chars_of(hash.as_str())) {
            Some(hash.concat(".png"))
        } else {
            None
        }
    }

    /// Notes that `sender`'s picture was written and returns its file name.
    pub fn record_avatar(&mut self, sender: &str) -> (r: String)
        ensures
            final(self).dir() == old(self).dir(),
            final(self).known() == old(self).known().insert(sender_hash_spec(sender@)),
            r@ == sender_hash_spec(sender@) + ".png"@,
    {
        let hash = sender_hash(sender);
        let ghost k = hash@;
        if !self.knows(&chars_of(hash.as_str())) {
            let ghost before = self.known_senders@;
            self.known_senders.push(hash.clone());
            proof {
                assert(self.known_senders@[before.len() as int]@ == k);
                assert forall|q: Seq<char>| #[trigger] self.known().contains(q) <==> old(self).known().insert(k).contains(q) by {
                    if self.known().contains(q) {
                        let j = choose|j: int| 0 <= j < self.known_senders@.len() && #[trigger] self.known_senders@[j]@ == q;
                        if j < before.len() {
                            assert(before[j]@ == q);
                        }
                    }
                    if old(self).known().contains(q) {
                        let j = choose|j: int| 0 <= j < before.len() && #[trigger] before[j]@ == q;
                        assert(self.known_senders@[j]@ == q);
                    }
                }
                assert(self.known() =~= old(self).known().insert(k));
            }
        } else {
            assert(self.known() =~= old(self).known().insert(k));
        }
        hash.concat(".png")
    }
}

/// Once recorded, a sender has an avatar.
pub proof fn law_recorded_avatar_is_known(before: Set<Seq<char>>, after: Set<Seq<char>>, sender: Seq<char>)
    requires
        after == before.insert(sender_hash_spec(sender)),
    ensures
        after.contains(sender_hash_spec(sender)),
{
}

} // verus!
