use vstd::prelude::*;
use vstd::string::{StrSliceExecFns, StringExecFns};

use crate::error::EngineError;

verus! {

/// A parsed store location: a bucket identifier and a normalized key
/// prefix. Immutable once parsed.
#[derive(Debug, PartialEq, Eq)]
pub struct S3Location {
    pub bucket: String,
    pub prefix: String,
}

/// Whether the string starts with the optional scheme, `s3://` with the
/// leading letter in either case.
pub open spec fn has_scheme(s: Seq<char>) -> bool {
    s.len() >= 5 && (s[0] == 's' || s[0] == 'S') && s[1] == '3' && s[2] == ':' && s[3] == '/'
        && s[4] == '/'
}

/// The string with the scheme removed, when present.
pub open spec fn after_scheme(s: Seq<char>) -> Seq<char> {
    if has_scheme(s) {
        s.skip(5)
    } else {
        s
    }
}

/// Length of the longest slash-free prefix: the bucket segment.
pub open spec fn bucket_len(s: Seq<char>) -> int
    decreases s.len(),
{
    if s.len() == 0 || s[0] == '/' {
        0
    } else {
        1 + bucket_len(s.drop_first())
    }
}

/// The bucket segment of a scheme-less location string.
pub open spec fn bucket_of(s: Seq<char>) -> Seq<char> {
    s.take(bucket_len(s))
}

/// What follows the bucket segment, leading slash included.
pub open spec fn rest_of(s: Seq<char>) -> Seq<char> {
    s.skip(bucket_len(s))
}

pub open spec fn trim_leading_slashes(s: Seq<char>) -> Seq<char>
    decreases s.len(),
{
    if s.len() > 0 && s[0] == '/' {
        trim_leading_slashes(s.drop_first())
    } else {
        s
    }
}

pub open spec fn trim_trailing_slashes(s: Seq<char>) -> Seq<char>
    decreases s.len(),
{
    if s.len() > 0 && s.last() == '/' {
        trim_trailing_slashes(s.drop_last())
    } else {
        s
    }
}

/// The normalized prefix of a scheme-less location string: what follows the
/// bucket, with all leading and trailing slashes removed.
pub open spec fn location_prefix_of(s: Seq<char>) -> Seq<char> {
    trim_trailing_slashes(trim_leading_slashes(rest_of(s)))
}

/// Whether a raw location string parses: its bucket segment is non-empty.
pub open spec fn parse_ok(raw: Seq<char>) -> bool {
    bucket_len(after_scheme(raw)) > 0
}

/// A slash-free stretch of `k` characters followed by a slash or the end
/// pins the bucket length down to `k`.
proof fn lemma_bucket_len_of(s: Seq<char>, k: int)
    requires
        0 <= k <= s.len(),
        forall|j: int| 0 <= j < k ==> s[j] != '/',
        k == s.len() || s[k] == '/',
    ensures
        bucket_len(s) == k,
    decreases k,
{
    if k == 0 {
    } else {
        assert(s[0] != '/');
        assert forall|j: int| 0 <= j < k - 1 implies s.drop_first()[j] != '/' by {
            assert(s.drop_first()[j] == s[j + 1]);
        }
        assert(k - 1 == s.drop_first().len() || s.drop_first()[k - 1] == '/');
        lemma_bucket_len_of(s.drop_first(), k - 1);
    }
}

/// `k` leading slashes followed by a non-slash or the end pin the trimmed
/// string down to `s.skip(k)`.
proof fn lemma_trim_leading_of(s: Seq<char>, k: int)
    requires
        0 <= k <= s.len(),
        forall|j: int| 0 <= j < k ==> s[j] == '/',
        k == s.len() || s[k] != '/',
    ensures
        trim_leading_slashes(s) == s.skip(k),
    decreases k,
{
    if k == 0 {
        assert(s.skip(0) =~= s);
    } else {
        assert(s[0] == '/');
        assert forall|j: int| 0 <= j < k - 1 implies s.drop_first()[j] == '/' by {
            assert(s.drop_first()[j] == s[j + 1]);
        }
        assert(k - 1 == s.drop_first().len() || s.drop_first()[k - 1] != '/');
        lemma_trim_leading_of(s.drop_first(), k - 1);
        assert(s.drop_first().skip(k - 1) =~= s.skip(k));
    }
}

/// Trailing slashes from position `k` on, with a non-slash or the start just
/// before, pin the trimmed string down to `s.take(k)`.
proof fn lemma_trim_trailing_of(s: Seq<char>, k: int)
    requires
        0 <= k <= s.len(),
        forall|j: int| k <= j < s.len() ==> s[j] == '/',
        k == 0 || s[k - 1] != '/',
    ensures
        trim_trailing_slashes(s) == s.take(k),
    decreases s.len() - k,
{
    if k == s.len() {
        assert(s.take(k) =~= s);
    } else {
        assert(s.last() == '/');
        assert forall|j: int| k <= j < s.drop_last().len() implies s.drop_last()[j] == '/' by {
            assert(s.drop_last()[j] == s[j]);
        }
        lemma_trim_trailing_of(s.drop_last(), k);
        assert(s.drop_last().take(k) =~= s.take(k));
    }
}

impl S3Location {
    /// The invariant a parsed location satisfies: a non-empty, slash-free
    /// bucket, and a prefix with no leading and no trailing slash (the empty
    /// prefix denotes whole-bucket scope).
    pub open spec fn wf(&self) -> bool {
        &&& self.bucket@.len() > 0
        &&& forall|i: int| 0 <= i < self.bucket@.len() ==> self.bucket@[i] != '/'
        &&& self.prefix@.len() == 0 || (self.prefix@[0] != '/' && self.prefix@.last() != '/')
    }

    /// Parses a `scheme://bucket/prefix`-shaped string.
    ///
    /// The scheme is optional; the bucket runs to the first slash and must
    /// be non-empty; the prefix is what remains, normalized by dropping all
    /// leading and trailing slashes. Fails with a format error exactly when
    /// the bucket segment is empty.
    pub fn parse(raw: &str) -> (r: Result<S3Location, EngineError>)
        ensures
            r is Ok <==> parse_ok(raw@),
            r matches Ok(loc) ==> {
                &&& loc.bucket@ == bucket_of(after_scheme(raw@))
                &&& loc.prefix@ == location_prefix_of(after_scheme(raw@))
                &&& loc.wf()
            },
            r is Err ==> r->Err_0 == EngineError::Format,
    {
        let n = raw.unicode_len();
        let start: usize = if n >= 5 {
            let c0 = raw.get_char(0);
            if (c0 == 's' || c0 == 'S') && raw.get_char(1) == '3' && raw.get_char(2) == ':'
                && raw.get_char(3) == '/' && raw.get_char(4) == '/' {
                5
            } else {
                0
            }
        } else {
            0
        };
        let ghost s = after_scheme(raw@);
        proof {
            assert(s =~= raw@.skip(start as int));
        }
        let mut i: usize = start;
        while i < n && raw.get_char(i) != '/'
            invariant
                start <= i <= n,
                n == raw@.len(),
                forall|j: int| start <= j < i ==> raw@[j] != '/',
            decreases n - i,
        {
            i = i + 1;
        }
        proof {
            assert forall|j: int| 0 <= j < i - start implies s[j] != '/' by {
                assert(s[j] == raw@[start + j]);
            }
            assert(i - start == s.len() || s[i - start] == '/');
            lemma_bucket_len_of(s, i - start);
        }
        if i == start {
            return Err(EngineError::Format);
        }
        let bucket = raw.substring_char(start, i).to_owned();
        proof {
            assert(raw@.subrange(start as int, i as int) =~= s.take(i - start));
        }
        let mut a: usize = i;
        while a < n && raw.get_char(a) == '/'
            invariant
                i <= a <= n,
                n == raw@.len(),
                forall|j: int| i <= j < a ==> raw@[j] == '/',
            decreases n - a,
        {
            a = a + 1;
        }
        let mut b: usize = n;
        while b > a && raw.get_char(b - 1) == '/'
            invariant
                a <= b <= n,
                n == raw@.len(),
                forall|j: int| b <= j < n ==> raw@[j] == '/',
            decreases b,
        {
            b = b - 1;
        }
        let prefix = raw.substring_char(a, b).to_owned();
        proof {
            let rest = rest_of(s);
            assert(rest =~= raw@.skip(i as int));
            assert forall|j: int| 0 <= j < a - i implies rest[j] == '/' by {
                assert(rest[j] == raw@[i + j]);
            }
            assert(a - i == rest.len() || rest[a - i] != '/');
            lemma_trim_leading_of(rest, a - i);
            let trimmed = trim_leading_slashes(rest);
            assert(trimmed =~= raw@.skip(a as int));
            assert forall|j: int| b - a <= j < trimmed.len() implies trimmed[j] == '/' by {
                assert(trimmed[j] == raw@[a + j]);
            }
            assert(b - a == 0 || trimmed[b - a - 1] != '/');
            lemma_trim_trailing_of(trimmed, b - a);
            assert(trimmed.take(b - a) =~= raw@.subrange(a as int, b as int));
        }
        Ok(S3Location { bucket, prefix })
    }

    /// Renders the location back as a `s3://bucket/prefix` string.
    pub fn url(&self) -> (r: String)
        ensures
            r@ == url_chars(*self),
    {
        let mut s = "s3://".to_owned();
        s.append(self.bucket.as_str());
        s.append("/");
        s.append(self.prefix.as_str());
        proof {
            assert(s@ =~= url_chars(*self));
        }
        s
    }
}

/// The characters of a location's rendered URL form.
pub open spec fn url_chars(loc: S3Location) -> Seq<char> {
    "s3://"@ + loc.bucket@ + "/"@ + loc.prefix@
}

impl Clone for S3Location {
    fn clone(&self) -> (r: Self)
        ensures
            r == *self,
    {
        S3Location { bucket: self.bucket.clone(), prefix: self.prefix.clone() }
    }
}

} // verus!
