//! Model identity: a non-empty opaque name, derived from explicit
//! strings, filesystem paths or URLs.

use vstd::prelude::*;
use vstd::string::StrSliceExecFns;

verus! {

/// Index of the last occurrence of `c` in `s`, or `-1` when `s` does not
/// contain `c`.
pub open spec fn last_index_of(s: Seq<char>, c: char) -> int
    decreases s.len(),
{
    if s.len() == 0 {
        -1
    } else if s[s.len() - 1] == c {
        s.len() - 1
    } else {
        last_index_of(s.drop_last(), c)
    }
}

proof fn lemma_last_index_of_at(s: Seq<char>, c: char, k: int)
    requires
        -1 <= k < s.len(),
        k >= 0 ==> s[k] == c,
        forall|j: int| k < j < s.len() ==> s[j] != c,
    ensures
        last_index_of(s, c) == k,
    decreases s.len(),
{
    if s.len() == 0 {
    } else if s[s.len() - 1] == c {
        assert(k == s.len() - 1);
    } else {
        assert(k < s.len() - 1);
        lemma_last_index_of_at(s.drop_last(), c, k);
    }
}

/// The final slash-delimited segment of `s`: everything after the last
/// `/`, or all of `s` when it has no slash.  Empty exactly when `s` ends
/// in a slash or is empty.
pub open spec fn final_segment(s: Seq<char>) -> Seq<char> {
    s.subrange(last_index_of(s, '/') + 1, s.len() as int)
}

/// Whether a final path component names a model: it must be non-empty,
/// must not be the parent-directory component, and must carry a file
/// extension, i.e. a dot that does not merely lead a hidden file name.
pub open spec fn valid_model_file_name(seg: Seq<char>) -> bool {
    &&& seg.len() > 0
    &&& !(seg.len() == 2 && seg[0] == '.' && seg[1] == '.')
    &&& exists|j: int| 1 <= j < seg.len() && seg[j] == '.'
}

/// Identity a path yields: the final component including its extension,
/// or nothing when the path ends in a separator or the component has no
/// extension.
pub open spec fn spec_id_from_path(s: Seq<char>) -> Option<Seq<char>> {
    if valid_model_file_name(final_segment(s)) {
        Some(final_segment(s))
    } else {
        None
    }
}

/// Identity a URL yields: its final non-empty slash-delimited segment,
/// or nothing when the URL ends in a separator.
pub open spec fn spec_id_from_url(s: Seq<char>) -> Option<Seq<char>> {
    if final_segment(s).len() > 0 {
        Some(final_segment(s))
    } else {
        None
    }
}

/// Index of the first entry whose identity reads `name`, or `-1`.
pub open spec fn find_name<V>(s: Seq<(ModelId, V)>, name: Seq<char>) -> int
    decreases s.len(),
{
    if s.len() == 0 {
        -1
    } else if s[0].0@ == name {
        0
    } else {
        let rest = find_name(s.drop_first(), name);
        if rest == -1 {
            -1
        } else {
            rest + 1
        }
    }
}

pub(crate) proof fn lemma_find_name_found<V>(s: Seq<(ModelId, V)>, name: Seq<char>, k: int)
    requires
        0 <= k < s.len(),
        s[k].0@ == name,
        forall|j: int| 0 <= j < k ==> s[j].0@ != name,
    ensures
        find_name(s, name) == k,
    decreases s.len(),
{
    if k > 0 {
        lemma_find_name_found(s.drop_first(), name, k - 1);
    }
}

pub(crate) proof fn lemma_find_name_range<V>(s: Seq<(ModelId, V)>, name: Seq<char>)
    ensures
        find_name(s, name) == -1 || (0 <= find_name(s, name) < s.len()),
    decreases s.len(),
{
    if s.len() > 0 && s[0].0@ != name {
        lemma_find_name_range(s.drop_first(), name);
    }
}

pub(crate) proof fn lemma_find_name_absent<V>(s: Seq<(ModelId, V)>, name: Seq<char>)
    requires
        find_name(s, name) == -1,
    ensures
        forall|j: int| 0 <= j < s.len() ==> (#[trigger] s[j]).0@ != name,
    decreases s.len(),
{
    if s.len() > 0 {
        assert(find_name(s, name) == if s[0].0@ == name {
            0int
        } else {
            let rest = find_name(s.drop_first(), name);
            if rest == -1 {
                -1int
            } else {
                rest + 1
            }
        });
        assert(s[0].0@ != name);
        lemma_find_name_range(s.drop_first(), name);
        lemma_find_name_absent(s.drop_first(), name);
        assert forall|j: int| 0 <= j < s.len() implies (#[trigger] s[j]).0@ != name by {
            if j > 0 {
                assert(s.drop_first()[j - 1] == s[j]);
            }
        }
    }
}

pub(crate) proof fn lemma_find_name_missing<V>(s: Seq<(ModelId, V)>, name: Seq<char>)
    requires
        forall|j: int| 0 <= j < s.len() ==> s[j].0@ != name,
    ensures
        find_name(s, name) == -1,
    decreases s.len(),
{
    if s.len() > 0 {
        lemma_find_name_missing(s.drop_first(), name);
    }
}

/// Opaque, hashable handle naming a deployable model.  Equality and
/// hashing are over the name itself.
#[derive(Debug, PartialEq, Eq, Hash)]
pub struct ModelId(pub String);

impl View for ModelId {
    type V = Seq<char>;

    open spec fn view(&self) -> Seq<char> {
        self.0@
    }
}

impl Clone for ModelId {
    fn clone(&self) -> (r: Self)
        ensures
            r == *self,
    {
        ModelId(self.0.clone())
    }
}

/// Position right after the last `/` of `s`, in character coordinates:
/// the start of the final segment.
fn final_segment_start(s: &str) -> (r: usize)
    ensures
        r == last_index_of(s@, '/') + 1,
        r <= s@.len(),
{
    let n = s.unicode_len();
    let mut i = n;
    while i > 0
        invariant
            i <= n,
            n == s@.len(),
            forall|j: int| i <= j < s@.len() ==> s@[j] != '/',
        decreases i,
    {
        i = i - 1;
        if s.get_char(i) == '/' {
            proof {
                lemma_last_index_of_at(s@, '/', i as int);
            }
            return i + 1;
        }
    }
    proof {
        lemma_last_index_of_at(s@, '/', -1);
    }
    0
}

impl ModelId {
    /// Takes the given name as the identity, unchanged.
    pub fn from_string(id: String) -> (r: Self)
        ensures
            r@ == id@,
    {
        ModelId(id)
    }

    /// Identity from a filesystem path, as `spec_id_from_path` defines
    /// it: the final component when it carries an extension.  Paths with
    /// a trailing separator or without an extension yield nothing.
    pub fn from_path(models_path: &str) -> (r: Option<Self>)
        ensures
            match r {
                Some(id) => spec_id_from_path(models_path@) == Some(id@),
                None => spec_id_from_path(models_path@) is None,
            },
    {
        let n = models_path.unicode_len();
        let start = final_segment_start(models_path);
        let seg = models_path.substring_char(start, n);
        let seg_len = n - start;
        proof {
            assert(seg@ == final_segment(models_path@));
        }
        if seg_len == 0 {
            return None;
        }
        if seg_len == 2 {
            let c0 = seg.get_char(0);
            let c1 = seg.get_char(1);
            if c0 == '.' && c1 == '.' {
                return None;
            }
        }
        let mut j: usize = 1;
        while j < seg_len
            invariant
                1 <= j <= seg_len,
                seg_len == seg@.len(),
                seg@ == final_segment(models_path@),
                !(seg@.len() == 2 && seg@[0] == '.' && seg@[1] == '.'),
                forall|m: int| 1 <= m < j ==> seg@[m] != '.',
            decreases seg_len - j,
        {
            if seg.get_char(j) == '.' {
                proof {
                    let sf = final_segment(models_path@);
                    assert(sf[j as int] == '.');
                    assert(sf.len() > 0);
                    assert(!(sf.len() == 2 && sf[0] == '.' && sf[1] == '.'));
                    assert(valid_model_file_name(sf));
                }
                return Some(ModelId(seg.to_owned()));
            }
            j = j + 1;
        }
        assert(!valid_model_file_name(final_segment(models_path@)));
        None
    }

    /// Identity from a URL, as `spec_id_from_url` defines it: the final
    /// non-empty slash-delimited segment.  URLs ending in a separator
    /// yield nothing.
    pub fn from_url(url: &str) -> (r: Option<Self>)
        ensures
            match r {
                Some(id) => spec_id_from_url(url@) == Some(id@),
                None => spec_id_from_url(url@) is None,
            },
    {
        let n = url.unicode_len();
        let start = final_segment_start(url);
        if start == n {
            return None;
        }
        let seg = url.substring_char(start, n);
        Some(ModelId(seg.to_owned()))
    }

    /// The name as a string slice.
    pub fn name(&self) -> (r: &str)
        ensures
            r@ == self@,
    {
        self.0.as_str()
    }

    /// Whether two identities name the same model.
    pub fn eq_id(&self, other: &ModelId) -> (r: bool)
        ensures
            r == (self@ == other@),
    {
        self.0 == other.0
    }
}

} // verus!
