//! Validation and rendering of ROS 2 graph resource names.
//!
//! A [`Name`] is a namespace plus a base identifier. The accepted character
//! set and shape rules follow the ROS 2 naming design: names are non-empty,
//! use alphanumerics, underscores, forward slashes, balanced (unnested)
//! curly braces and the private-namespace tilde; they must not start with a
//! digit, end with a slash, or contain repeated slashes or underscores, and
//! a tilde must be followed by a slash (or end the name).
//!
//! Names are handled as byte strings; all accepted names are ASCII.

use vstd::prelude::*;

verus! {

/// Rejection raised when a string violates the naming rules.
#[derive(Clone, Copy, PartialEq, Eq, Structural, Debug)]
pub enum NameError {
    Invalid,
}

pub const B_SLASH: u8 = 47;
pub const B_UNDERSCORE: u8 = 95;
pub const B_TILDE: u8 = 126;
pub const B_OPEN_BRACE: u8 = 123;
pub const B_CLOSE_BRACE: u8 = 125;

pub open spec fn is_digit_byte(c: u8) -> bool {
    48 <= c <= 57
}

pub open spec fn is_alpha_byte(c: u8) -> bool {
    (65 <= c <= 90) || (97 <= c <= 122)
}

/// The characters a name may contain.
pub open spec fn is_allowed_name_byte(c: u8) -> bool {
    ||| is_digit_byte(c)
    ||| is_alpha_byte(c)
    ||| c == B_UNDERSCORE
    ||| c == B_SLASH
    ||| c == B_TILDE
    ||| c == B_OPEN_BRACE
    ||| c == B_CLOSE_BRACE
}

/// No two adjacent occurrences of byte `c`.
pub open spec fn no_repeat(s: Seq<u8>, c: u8) -> bool {
    forall|i: int| 0 < i < s.len() ==> !(s[i - 1] == c && #[trigger] s[i] == c)
}

/// Every tilde is followed by a slash, or ends the name.
pub open spec fn tilde_rule(s: Seq<u8>) -> bool {
    forall|i: int| 0 < i < s.len() ==> (s[i - 1] == B_TILDE ==> #[trigger] s[i] == B_SLASH)
}

/// Brace discipline from position `i` in state `open`: braces are balanced,
/// never nested, and a substitution never spans a slash.
pub open spec fn braces_ok_from(s: Seq<u8>, i: int, open: bool) -> bool
    decreases s.len() - i when 0 <= i <= s.len()
{
    if i >= s.len() {
        !open
    } else if s[i] == B_OPEN_BRACE {
        !open && braces_ok_from(s, i + 1, true)
    } else if s[i] == B_CLOSE_BRACE {
        open && braces_ok_from(s, i + 1, false)
    } else if s[i] == B_SLASH {
        !open && braces_ok_from(s, i + 1, open)
    } else {
        braces_ok_from(s, i + 1, open)
    }
}

pub open spec fn braces_ok(s: Seq<u8>) -> bool {
    braces_ok_from(s, 0, false)
}

/// The full naming rules on one name string.
pub open spec fn valid_name_bytes(s: Seq<u8>) -> bool {
    &&& s.len() > 0
    &&& (forall|i: int| 0 <= i < s.len() ==> is_allowed_name_byte(#[trigger] s[i]))
    &&& !is_digit_byte(s[0])
    &&& s[s.len() - 1] != B_SLASH
    &&& no_repeat(s, B_SLASH)
    &&& no_repeat(s, B_UNDERSCORE)
    &&& tilde_rule(s)
    &&& braces_ok(s)
}

/// Rules on the base part of a name: a non-empty slash-free string obeying
/// the shared character and shape rules.
pub open spec fn valid_base_bytes(s: Seq<u8>) -> bool {
    &&& s.len() > 0
    &&& (forall|i: int| 0 <= i < s.len() ==> is_allowed_name_byte(#[trigger] s[i]))
    &&& (forall|i: int| 0 <= i < s.len() ==> #[trigger] s[i] != B_SLASH)
    &&& no_repeat(s, B_UNDERSCORE)
    &&& tilde_rule(s)
    &&& braces_ok(s)
}

/// Rules on a non-empty namespace part: slash-separated, with no leading or
/// trailing slash.
pub open spec fn valid_namespace_bytes(s: Seq<u8>) -> bool {
    &&& s.len() > 0
    &&& (forall|i: int| 0 <= i < s.len() ==> is_allowed_name_byte(#[trigger] s[i]))
    &&& s[0] != B_SLASH
    &&& s[s.len() - 1] != B_SLASH
    &&& no_repeat(s, B_SLASH)
    &&& no_repeat(s, B_UNDERSCORE)
    &&& tilde_rule(s)
    &&& braces_ok(s)
}

fn all_bytes_allowed(v: &Vec<u8>) -> (r: bool)
    ensures
        r == (forall|i: int| 0 <= i < v@.len() ==> is_allowed_name_byte(#[trigger] v@[i])),
{
    let mut i: usize = 0;
    while i < v.len()
        invariant
            0 <= i <= v@.len(),
            forall|j: int| 0 <= j < i ==> is_allowed_name_byte(#[trigger] v@[j]),
        decreases v@.len() - i,
    {
        let c = v[i];
        let ok = (48 <= c && c <= 57) || (65 <= c && c <= 90) || (97 <= c && c <= 122)
            || c == B_UNDERSCORE || c == B_SLASH || c == B_TILDE || c == B_OPEN_BRACE
            || c == B_CLOSE_BRACE;
        if !ok {
            return false;
        }
        i = i + 1;
    }
    true
}

fn has_no_repeat(v: &Vec<u8>, c: u8) -> (r: bool)
    ensures
        r == no_repeat(v@, c),
{
    let mut i: usize = 1;
    while i < v.len()
        invariant
            1 <= i,
            forall|j: int| 0 < j < i && j < v@.len() ==> !(v@[j - 1] == c && #[trigger] v@[j] == c),
        decreases v@.len() - i,
    {
        if v[i - 1] == c && v[i] == c {
            return false;
        }
        i = i + 1;
    }
    true
}

fn tilde_rule_holds(v: &Vec<u8>) -> (r: bool)
    ensures
        r == tilde_rule(v@),
{
    let mut i: usize = 1;
    while i < v.len()
        invariant
            1 <= i,
            forall|j: int|
                0 < j < i && j < v@.len() ==> (v@[j - 1] == B_TILDE ==> #[trigger] v@[j]
                    == B_SLASH),
        decreases v@.len() - i,
    {
        if v[i - 1] == B_TILDE && v[i] != B_SLASH {
            return false;
        }
        i = i + 1;
    }
    true
}

fn braces_ok_exec(v: &Vec<u8>) -> (r: bool)
    ensures
        r == braces_ok(v@),
{
    let mut i: usize = 0;
    let mut open = false;
    while i < v.len()
        invariant
            0 <= i <= v@.len(),
            braces_ok(v@) == braces_ok_from(v@, i as int, open),
        decreases v@.len() - i,
    {
        let c = v[i];
        if c == B_OPEN_BRACE {
            if open {
                return false;
            }
            open = true;
        } else if c == B_CLOSE_BRACE {
            if !open {
                return false;
            }
            open = false;
        } else if c == B_SLASH {
            if open {
                return false;
            }
        }
        i = i + 1;
    }
    !open
}

/// Checks the full naming rules.
pub fn name_bytes_valid(v: &Vec<u8>) -> (r: bool)
    ensures
        r == valid_name_bytes(v@),
{
    if v.len() == 0 {
        return false;
    }
    if 48 <= v[0] && v[0] <= 57 {
        return false;
    }
    if v[v.len() - 1] == B_SLASH {
        return false;
    }
    all_bytes_allowed(v) && has_no_repeat(v, B_SLASH) && has_no_repeat(v, B_UNDERSCORE)
        && tilde_rule_holds(v) && braces_ok_exec(v)
}

/// Appends all of `src` to `dst`.
pub fn append_bytes(dst: &mut Vec<u8>, src: &Vec<u8>)
    ensures
        final(dst)@ == old(dst)@ + src@,
{
    let mut i: usize = 0;
    while i < src.len()
        invariant
            0 <= i <= src@.len(),
            dst@ == old(dst)@ + src@.subrange(0, i as int),
        decreases src@.len() - i,
    {
        dst.push(src[i]);
        i = i + 1;
        proof {
            assert(old(dst)@ + src@.subrange(0, i as int) =~= (old(dst)@ + src@.subrange(
                0,
                i as int - 1,
            )).push(src@[i as int - 1]));
        }
    }
    proof {
        assert(src@.subrange(0, src@.len() as int) =~= src@);
    }
}

/// Copies `v[from..to]` into a fresh vector.
pub fn copy_range(v: &Vec<u8>, from: usize, to: usize) -> (r: Vec<u8>)
    requires
        from <= to <= v@.len(),
    ensures
        r@ == v@.subrange(from as int, to as int),
{
    let mut out: Vec<u8> = Vec::new();
    let mut i: usize = from;
    while i < to
        invariant
            from <= i <= to <= v@.len(),
            out@ == v@.subrange(from as int, i as int),
        decreases to - i,
    {
        out.push(v[i]);
        i = i + 1;
        proof {
            assert(v@.subrange(from as int, i as int) =~= v@.subrange(
                from as int,
                i as int - 1,
            ).push(v@[i as int - 1]));
        }
    }
    out
}

/// Index of the last slash of `t` at or before position `i`, or -1.
pub open spec fn last_slash_from(t: Seq<u8>, i: int) -> int
    decreases i + 1 when -1 <= i < t.len()
{
    if i < 0 {
        -1
    } else if t[i] == B_SLASH {
        i
    } else {
        last_slash_from(t, i - 1)
    }
}

pub open spec fn last_slash(t: Seq<u8>) -> int {
    last_slash_from(t, t.len() - 1)
}

proof fn lemma_last_slash_found(t: Seq<u8>, k: int, i: int)
    requires
        0 <= k <= i < t.len(),
        t[k] == B_SLASH,
        forall|j: int| k < j <= i ==> t[j] != B_SLASH,
    ensures
        last_slash_from(t, i) == k,
    decreases i - k,
{
    if i > k {
        lemma_last_slash_found(t, k, i - 1);
    }
}

proof fn lemma_last_slash_none(t: Seq<u8>, i: int)
    requires
        -1 <= i < t.len(),
        forall|j: int| 0 <= j <= i ==> t[j] != B_SLASH,
    ensures
        last_slash_from(t, i) == -1,
    decreases i + 1,
{
    if i >= 0 {
        lemma_last_slash_none(t, i - 1);
    }
}

/// The namespace/base split of a name whose leading slash is already
/// stripped: everything before the last slash, and everything after it.
pub open spec fn spec_split(t: Seq<u8>) -> (Seq<u8>, Seq<u8>) {
    let k = last_slash(t);
    if k < 0 {
        (Seq::empty(), t)
    } else {
        (t.subrange(0, k), t.subrange(k + 1, t.len() as int))
    }
}

/// What parsing a name string yields: `None` when the string violates the
/// naming rules, otherwise the namespace and base parts.
pub open spec fn spec_parse(s: Seq<u8>) -> Option<(Seq<u8>, Seq<u8>)> {
    if !valid_name_bytes(s) {
        None
    } else {
        let t = if s[0] == B_SLASH {
            s.subrange(1, s.len() as int)
        } else {
            s
        };
        Some(spec_split(t))
    }
}

/// The canonical written form of a name: `/namespace/base`, or `/base` when
/// the namespace is empty.
pub open spec fn spec_render(ns: Seq<u8>, base: Seq<u8>) -> Seq<u8> {
    if ns.len() == 0 {
        seq![B_SLASH] + base
    } else {
        seq![B_SLASH] + ns + seq![B_SLASH] + base
    }
}

// Brace-discipline lemmas: walking forward to a slash leaves the
// outside-braces state, and validity transfers to subranges cut at slashes.

/// From any valid state, the state just after a slash is "outside braces".
proof fn lemma_braces_walk_to_slash(s: Seq<u8>, i: int, open: bool, k: int)
    requires
        0 <= i <= k < s.len(),
        braces_ok_from(s, i, open),
        s[k] == B_SLASH,
    ensures
        braces_ok_from(s, k + 1, false),
    decreases k - i,
{
    if i < k {
        if s[i] == B_OPEN_BRACE {
            lemma_braces_walk_to_slash(s, i + 1, true, k);
        } else if s[i] == B_CLOSE_BRACE {
            lemma_braces_walk_to_slash(s, i + 1, false, k);
        } else {
            lemma_braces_walk_to_slash(s, i + 1, open, k);
        }
    }
}

/// Brace discipline only depends on the bytes from the current position on.
proof fn lemma_braces_shift(s: Seq<u8>, d: int, j: int, open: bool)
    requires
        0 <= d <= j <= s.len(),
    ensures
        braces_ok_from(s, j, open) == braces_ok_from(s.subrange(d, s.len() as int), j - d, open),
    decreases s.len() - j,
{
    let sub = s.subrange(d, s.len() as int);
    if j == s.len() {
        assert(j - d == sub.len());
    } else {
        assert(sub[j - d] == s[j]);
        if s[j] == B_OPEN_BRACE {
            lemma_braces_shift(s, d, j + 1, true);
        } else if s[j] == B_CLOSE_BRACE {
            lemma_braces_shift(s, d, j + 1, false);
        } else {
            lemma_braces_shift(s, d, j + 1, open);
        }
    }
}

/// Cutting a valid string just before a slash keeps the brace discipline of
/// the prefix.
proof fn lemma_braces_truncate_at_slash(s: Seq<u8>, i: int, open: bool, k: int)
    requires
        0 <= i <= k < s.len(),
        braces_ok_from(s, i, open),
        s[k] == B_SLASH,
    ensures
        braces_ok_from(s.subrange(0, k), i, open),
    decreases k - i,
{
    let sub = s.subrange(0, k);
    if i == k {
        assert(!open);
        assert(i >= sub.len());
    } else {
        assert(sub[i] == s[i]);
        if s[i] == B_OPEN_BRACE {
            lemma_braces_truncate_at_slash(s, i + 1, true, k);
        } else if s[i] == B_CLOSE_BRACE {
            lemma_braces_truncate_at_slash(s, i + 1, false, k);
        } else {
            lemma_braces_truncate_at_slash(s, i + 1, open, k);
        }
    }
}

/// Appending another disciplined string keeps brace discipline.
proof fn lemma_braces_append_from(a: Seq<u8>, b: Seq<u8>, i: int, open: bool)
    requires
        0 <= i <= a.len(),
        braces_ok_from(a, i, open),
        braces_ok(b),
    ensures
        braces_ok_from(a + b, i, open),
    decreases a.len() - i,
{
    if i == a.len() {
        assert(!open);
        lemma_braces_shift(a + b, a.len() as int, a.len() as int, false);
        assert((a + b).subrange(a.len() as int, (a + b).len() as int) =~= b);
    } else {
        assert((a + b)[i] == a[i]);
        if a[i] == B_OPEN_BRACE {
            lemma_braces_append_from(a, b, i + 1, true);
        } else if a[i] == B_CLOSE_BRACE {
            lemma_braces_append_from(a, b, i + 1, false);
        } else {
            lemma_braces_append_from(a, b, i + 1, open);
        }
    }
}

proof fn lemma_braces_append(a: Seq<u8>, b: Seq<u8>)
    requires
        braces_ok(a),
        braces_ok(b),
    ensures
        braces_ok(a + b),
{
    lemma_braces_append_from(a, b, 0, false);
}

fn no_slash_bytes(v: &Vec<u8>) -> (r: bool)
    ensures
        r == (forall|i: int| 0 <= i < v@.len() ==> #[trigger] v@[i] != B_SLASH),
{
    let mut i: usize = 0;
    while i < v.len()
        invariant
            0 <= i <= v@.len(),
            forall|j: int| 0 <= j < i ==> #[trigger] v@[j] != B_SLASH,
        decreases v@.len() - i,
    {
        if v[i] == B_SLASH {
            return false;
        }
        i = i + 1;
    }
    true
}

/// Checks the rules on a base identifier.
pub fn base_bytes_valid(v: &Vec<u8>) -> (r: bool)
    ensures
        r == valid_base_bytes(v@),
{
    v.len() > 0 && all_bytes_allowed(v) && no_slash_bytes(v) && has_no_repeat(v, B_UNDERSCORE)
        && tilde_rule_holds(v) && braces_ok_exec(v)
}

/// Checks the rules on a non-empty namespace.
pub fn namespace_bytes_valid(v: &Vec<u8>) -> (r: bool)
    ensures
        r == valid_namespace_bytes(v@),
{
    if v.len() == 0 {
        return false;
    }
    if v[0] == B_SLASH {
        return false;
    }
    if v[v.len() - 1] == B_SLASH {
        return false;
    }
    all_bytes_allowed(v) && has_no_repeat(v, B_SLASH) && has_no_repeat(v, B_UNDERSCORE)
        && tilde_rule_holds(v) && braces_ok_exec(v)
}

/// A graph resource name: a namespace (possibly empty, with no leading or
/// trailing slash) plus a base identifier (no slashes).
#[derive(Clone, Debug)]
pub struct Name {
    pub namespace: Vec<u8>,
    pub base: Vec<u8>,
}

impl Name {
    /// Well-formedness: both parts obey the naming rules.
    pub open spec fn wf(&self) -> bool {
        &&& valid_base_bytes(self.base@)
        &&& (self.namespace@.len() == 0 || valid_namespace_bytes(self.namespace@))
    }

    /// Builds a name from its two parts, validating both.
    pub fn new(namespace: Vec<u8>, base: Vec<u8>) -> (r: Result<Name, NameError>)
        ensures
            r.is_ok() == ((namespace@.len() == 0 || valid_namespace_bytes(namespace@))
                && valid_base_bytes(base@)),
            r matches Ok(n) ==> n.wf() && n.namespace@ == namespace@ && n.base@ == base@,
    {
        let ns_ok = namespace.len() == 0 || namespace_bytes_valid(&namespace);
        if ns_ok && base_bytes_valid(&base) {
            Ok(Name { namespace, base })
        } else {
            Err(NameError::Invalid)
        }
    }

    /// The canonical written form: `/namespace/base` (or `/base`).
    pub fn render(&self) -> (r: Vec<u8>)
        ensures
            r@ == spec_render(self.namespace@, self.base@),
    {
        let mut out: Vec<u8> = Vec::new();
        out.push(B_SLASH);
        if self.namespace.len() > 0 {
            append_bytes(&mut out, &self.namespace);
            out.push(B_SLASH);
        }
        append_bytes(&mut out, &self.base);
        proof {
            if self.namespace@.len() == 0 {
                assert(out@ =~= spec_render(self.namespace@, self.base@));
            } else {
                assert(out@ =~= spec_render(self.namespace@, self.base@));
            }
        }
        out
    }

    /// Parses a name string. Accepts exactly the strings obeying the naming
    /// rules; an accepted string is split at its last slash (an optional
    /// leading slash is not part of the namespace).
    pub fn parse(bytes: &Vec<u8>) -> (r: Result<Name, NameError>)
        ensures
            r.is_ok() == valid_name_bytes(bytes@),
            r matches Ok(n) ==> n.wf() && spec_parse(bytes@) == Some((n.namespace@, n.base@)),
    {
        if !name_bytes_valid(bytes) {
            return Err(NameError::Invalid);
        }
        let ghost s = bytes@;
        let start: usize = if bytes[0] == B_SLASH {
            1
        } else {
            0
        };
        let ghost t = if s[0] == B_SLASH {
            s.subrange(1, s.len() as int)
        } else {
            s
        };
        proof {
            assert(t =~= s.subrange(start as int, s.len() as int));
            if start == 1 {
                lemma_braces_walk_to_slash(s, 0, false, 0);
            }
            lemma_braces_shift(s, start as int, start as int, false);
            assert(braces_ok(t));
            // the stripped string is non-empty: a one-byte name cannot be "/"
            assert(t.len() > 0);
        }
        let mut j: usize = bytes.len();
        let mut slash_at: Option<usize> = None;
        while j > start && slash_at.is_none()
            invariant
                start <= j <= bytes@.len(),
                valid_name_bytes(bytes@),
                start == 1 || start == 0,
                (start == 1) == (bytes@[0] == B_SLASH),
                slash_at.is_none() ==> forall|idx: int|
                    j <= idx < bytes@.len() ==> bytes@[idx] != B_SLASH,
                slash_at matches Some(k) ==> start <= k && (k as int) < bytes@.len()
                    && bytes@[k as int] == B_SLASH && (forall|idx: int|
                    k < idx < bytes@.len() ==> bytes@[idx] != B_SLASH),
            decreases j,
        {
            j = j - 1;
            if bytes[j] == B_SLASH {
                slash_at = Some(j);
            }
        }
        match slash_at {
            None => {
                let base = copy_range(bytes, start, bytes.len());
                proof {
                    assert(base@ =~= t);
                    lemma_last_slash_none(t, t.len() - 1);
                    assert(spec_split(t).1 == t);
                    assert(spec_split(t).0 =~= Seq::<u8>::empty());
                    assert forall|i: int| 0 <= i < t.len() implies #[trigger] t[i]
                        != B_SLASH by {
                        assert(t[i] == s[start + i]);
                    }
                    assert(valid_base_bytes(base@)) by {
                        assert forall|i: int| 0 <= i < t.len() implies is_allowed_name_byte(
                            #[trigger] t[i],
                        ) by {
                            assert(t[i] == s[start + i]);
                        }
                        assert forall|i: int| 0 < i < t.len() implies !(t[i - 1] == B_UNDERSCORE
                            && #[trigger] t[i] == B_UNDERSCORE) by {
                            assert(t[i] == s[start + i] && t[i - 1] == s[start + i - 1]);
                        }
                        assert forall|i: int| 0 < i < t.len() implies (t[i - 1] == B_TILDE
                            ==> #[trigger] t[i] == B_SLASH) by {
                            assert(t[i] == s[start + i] && t[i - 1] == s[start + i - 1]);
                        }
                    }
                }
                Ok(Name { namespace: Vec::new(), base })
            },
            Some(k) => {
                let namespace = copy_range(bytes, start, k);
                let base = copy_range(bytes, k + 1, bytes.len());
                proof {
                    let ki = k as int;
                    let len = s.len() as int;
                    // the found slash cannot sit at the start: a leading
                    // slash was stripped and repeated slashes are rejected
                    assert(ki > start);
                    assert(s[len - 1] != B_SLASH);
                    assert(ki < len - 1);
                    // base part
                    assert(base@ == s.subrange(ki + 1, len));
                    assert(valid_base_bytes(base@)) by {
                        assert forall|i: int| 0 <= i < base@.len() implies is_allowed_name_byte(
                            #[trigger] base@[i],
                        ) && base@[i] != B_SLASH by {
                            assert(base@[i] == s[ki + 1 + i]);
                        }
                        assert forall|i: int| 0 < i < base@.len() implies !(base@[i - 1]
                            == B_UNDERSCORE && #[trigger] base@[i] == B_UNDERSCORE) by {
                            assert(base@[i] == s[ki + 1 + i] && base@[i - 1] == s[ki + i]);
                        }
                        assert forall|i: int| 0 < i < base@.len() implies (base@[i - 1] == B_TILDE
                            ==> #[trigger] base@[i] == B_SLASH) by {
                            assert(base@[i] == s[ki + 1 + i] && base@[i - 1] == s[ki + i]);
                        }
                        lemma_braces_walk_to_slash(s, 0, false, ki);
                        lemma_braces_shift(s, ki + 1, ki + 1, false);
                    }
                    // namespace part
                    assert(namespace@ == s.subrange(start as int, ki));
                    assert(namespace@.len() > 0);
                    assert(valid_namespace_bytes(namespace@)) by {
                        assert forall|i: int| 0 <= i < namespace@.len() implies is_allowed_name_byte(
                            #[trigger] namespace@[i],
                        ) by {
                            assert(namespace@[i] == s[start + i]);
                        }
                        assert(namespace@[0] == s[start as int]);
                        assert(s[start as int] != B_SLASH);
                        assert(namespace@[namespace@.len() - 1] == s[ki - 1]);
                        assert(s[ki - 1] != B_SLASH);
                        assert forall|i: int| 0 < i < namespace@.len() implies !(namespace@[i - 1]
                            == B_SLASH && #[trigger] namespace@[i] == B_SLASH) && !(namespace@[i
                            - 1] == B_UNDERSCORE && namespace@[i] == B_UNDERSCORE) && (namespace@[i
                            - 1] == B_TILDE ==> namespace@[i] == B_SLASH) by {
                            assert(namespace@[i] == s[start + i] && namespace@[i - 1] == s[start + i
                                - 1]);
                        }
                        if start == 1 {
                            lemma_braces_walk_to_slash(s, 0, false, 0);
                        }
                        lemma_braces_truncate_at_slash(s, start as int, false, ki);
                        lemma_braces_shift(s.subrange(0, ki), start as int, start as int, false);
                        assert(s.subrange(0, ki).subrange(start as int, ki) =~= namespace@);
                    }
                    // the split the parse result must match
                    assert(t[ki - start] == B_SLASH);
                    assert forall|jj: int| ki - start < jj < t.len() implies #[trigger] t[jj]
                        != B_SLASH by {
                        assert(t[jj] == s[start + jj]);
                    }
                    lemma_last_slash_found(t, ki - start, t.len() - 1);
                    assert(t.subrange(0, ki - start) =~= namespace@);
                    assert(t.subrange(ki - start + 1, t.len() as int) =~= base@);
                }
                Ok(Name { namespace, base })
            },
        }
    }
}

/// A rendered well-formed name obeys the naming rules.
pub proof fn lemma_render_valid(ns: Seq<u8>, base: Seq<u8>)
    requires
        valid_base_bytes(base),
        ns.len() == 0 || valid_namespace_bytes(ns),
    ensures
        valid_name_bytes(spec_render(ns, base)),
{
    let sl = seq![B_SLASH];
    assert(braces_ok_from(sl, 1, false));
    assert(braces_ok(sl));
    let s = spec_render(ns, base);
    if ns.len() == 0 {
        assert(s == sl + base);
        assert forall|i: int| 0 <= i < s.len() implies is_allowed_name_byte(#[trigger] s[i]) by {
            if i > 0 {
                assert(s[i] == base[i - 1]);
            }
        }
        assert(s[s.len() - 1] == base[base.len() - 1]);
        assert forall|i: int| 0 < i < s.len() implies !(s[i - 1] == B_SLASH && #[trigger] s[i]
            == B_SLASH) && !(s[i - 1] == B_UNDERSCORE && s[i] == B_UNDERSCORE) && (s[i - 1]
            == B_TILDE ==> s[i] == B_SLASH) by {
            assert(s[i] == base[i - 1]);
            if i > 1 {
                assert(s[i - 1] == base[i - 2]);
            }
        }
        lemma_braces_append(sl, base);
    } else {
        let u = sl + ns + sl;
        assert(s =~= u + base);
        assert forall|i: int| 0 <= i < s.len() implies is_allowed_name_byte(#[trigger] s[i]) by {
            if 1 <= i < 1 + ns.len() {
                assert(s[i] == ns[i - 1]);
            } else if i > 1 + ns.len() {
                assert(s[i] == base[i - ns.len() - 2]);
            }
        }
        assert(s[s.len() - 1] == base[base.len() - 1]);
        assert forall|i: int| 0 < i < s.len() implies !(s[i - 1] == B_SLASH && #[trigger] s[i]
            == B_SLASH) && !(s[i - 1] == B_UNDERSCORE && s[i] == B_UNDERSCORE) && (s[i - 1]
            == B_TILDE ==> s[i] == B_SLASH) by {
            let nl = ns.len() as int;
            if i < 1 + nl {
                assert(s[i] == ns[i - 1]);
                if i > 1 {
                    assert(s[i - 1] == ns[i - 2]);
                }
                if i == 1 {
                    assert(s[0] == B_SLASH);
                    assert(ns[0] != B_SLASH);
                }
            } else if i == 1 + nl {
                assert(s[i] == B_SLASH);
                assert(s[i - 1] == ns[nl - 1]);
                assert(ns[nl - 1] != B_SLASH);
            } else if i == 2 + nl {
                assert(s[i - 1] == B_SLASH);
                assert(s[i] == base[0]);
                assert(base[0] != B_SLASH);
            } else {
                assert(s[i] == base[i - nl - 2]);
                assert(s[i - 1] == base[i - nl - 3]);
            }
        }
        assert(braces_ok(u)) by {
            lemma_braces_append(sl, ns);
            lemma_braces_append(sl + ns, sl);
            assert(u =~= (sl + ns) + sl);
        }
        lemma_braces_append(u, base);
    }
}

/// Round trip: parsing the rendered form of any well-formed name gives the
/// name back, namespace and base unchanged.
pub proof fn lemma_parse_render_round_trip(ns: Seq<u8>, base: Seq<u8>)
    requires
        valid_base_bytes(base),
        ns.len() == 0 || valid_namespace_bytes(ns),
    ensures
        spec_parse(spec_render(ns, base)) == Some((ns, base)),
{
    lemma_render_valid(ns, base);
    let s = spec_render(ns, base);
    assert(s[0] == B_SLASH);
    let t = s.subrange(1, s.len() as int);
    if ns.len() == 0 {
        assert(t =~= base);
        assert forall|j: int| 0 <= j < t.len() implies #[trigger] t[j] != B_SLASH by {
            assert(t[j] == base[j]);
        }
        lemma_last_slash_none(t, t.len() - 1);
        assert(spec_split(t).0 =~= ns);
        assert(spec_split(t).1 == t);
    } else {
        assert(t =~= ns + seq![B_SLASH] + base);
        let k = ns.len() as int;
        assert(t[k] == B_SLASH);
        assert forall|j: int| k < j < t.len() implies #[trigger] t[j] != B_SLASH by {
            assert(t[j] == base[j - k - 1]);
        }
        lemma_last_slash_found(t, k, t.len() - 1);
        assert(t.subrange(0, k) =~= ns);
        assert(t.subrange(k + 1, t.len() as int) =~= base);
    }
}

/// Joining a namespace and one more segment into a longer namespace.
pub open spec fn spec_join(ns: Seq<u8>, seg: Seq<u8>) -> Seq<u8> {
    if ns.len() == 0 {
        seg
    } else {
        ns + seq![B_SLASH] + seg
    }
}

/// A joined namespace is again a well-formed namespace.
pub proof fn lemma_join_valid(ns: Seq<u8>, seg: Seq<u8>)
    requires
        ns.len() == 0 || valid_namespace_bytes(ns),
        valid_base_bytes(seg),
    ensures
        valid_namespace_bytes(spec_join(ns, seg)),
{
    if ns.len() == 0 {
    } else {
        let sl = seq![B_SLASH];
        assert(braces_ok_from(sl, 1, false));
        assert(braces_ok(sl));
        let u = spec_join(ns, seg);
        let nl = ns.len() as int;
        assert(u =~= ns + sl + seg);
        assert forall|i: int| 0 <= i < u.len() implies is_allowed_name_byte(#[trigger] u[i]) by {
            if i < nl {
                assert(u[i] == ns[i]);
            } else if i > nl {
                assert(u[i] == seg[i - nl - 1]);
            }
        }
        assert(u[0] == ns[0]);
        assert(u[u.len() - 1] == seg[seg.len() - 1]);
        assert forall|i: int| 0 < i < u.len() implies !(u[i - 1] == B_SLASH && #[trigger] u[i]
            == B_SLASH) && !(u[i - 1] == B_UNDERSCORE && u[i] == B_UNDERSCORE) && (u[i - 1]
            == B_TILDE ==> u[i] == B_SLASH) by {
            if i < nl {
                assert(u[i] == ns[i] && u[i - 1] == ns[i - 1]);
            } else if i == nl {
                assert(u[i] == B_SLASH && u[i - 1] == ns[nl - 1]);
                assert(ns[nl - 1] != B_SLASH);
            } else if i == nl + 1 {
                assert(u[i - 1] == B_SLASH && u[i] == seg[0]);
                assert(seg[0] != B_SLASH);
            } else {
                assert(u[i] == seg[i - nl - 1] && u[i - 1] == seg[i - nl - 2]);
            }
        }
        assert(braces_ok(u)) by {
            lemma_braces_append(ns, sl);
            lemma_braces_append(ns + sl, seg);
            assert(u =~= (ns + sl) + seg);
        }
    }
}

impl Name {
    /// Descends into the name: the old base becomes the last namespace
    /// segment and `seg` the new base, as when an action name grows its
    /// `_action/send_goal` sub-names.
    pub fn push(&self, seg: Vec<u8>) -> (r: Result<Name, NameError>)
        requires
            self.wf(),
        ensures
            r.is_ok() == valid_base_bytes(seg@),
            r matches Ok(n) ==> n.wf() && n.namespace@ == spec_join(self.namespace@, self.base@)
                && n.base@ == seg@,
    {
        if !base_bytes_valid(&seg) {
            return Err(NameError::Invalid);
        }
        let mut ns: Vec<u8> = Vec::new();
        if self.namespace.len() > 0 {
            append_bytes(&mut ns, &self.namespace);
            ns.push(B_SLASH);
        }
        append_bytes(&mut ns, &self.base);
        proof {
            assert(ns@ =~= spec_join(self.namespace@, self.base@));
            lemma_join_valid(self.namespace@, self.base@);
        }
        Ok(Name { namespace: ns, base: seg })
    }
}

/// The DDS topic-name prefix: plain topics, service requests, service
/// replies.
#[derive(Clone, Copy, PartialEq, Eq, Structural, Debug)]
pub enum TopicPrefix {
    Topic,
    ServiceRequest,
    ServiceReply,
}

impl TopicPrefix {
    /// `rt`, `rq` or `rr`.
    pub open spec fn spec_bytes(self) -> Seq<u8> {
        match self {
            TopicPrefix::Topic => seq![114u8, 116u8],
            TopicPrefix::ServiceRequest => seq![114u8, 113u8],
            TopicPrefix::ServiceReply => seq![114u8, 114u8],
        }
    }
}

/// The name of a node: namespace plus base identifier, with the stricter
/// node rules (no tilde, no substitution braces; the base has no slashes
/// and only alphanumerics and underscores).
pub open spec fn valid_node_base_bytes(s: Seq<u8>) -> bool {
    &&& s.len() > 0
    &&& (forall|i: int|
        0 <= i < s.len() ==> (is_alpha_byte(#[trigger] s[i]) || is_digit_byte(s[i]) || s[i]
            == B_UNDERSCORE))
    &&& !is_digit_byte(s[0])
    &&& no_repeat(s, B_UNDERSCORE)
}

pub open spec fn valid_node_namespace_bytes(s: Seq<u8>) -> bool {
    &&& valid_namespace_bytes(s)
    &&& (forall|i: int|
        0 <= i < s.len() ==> (#[trigger] s[i] != B_TILDE && s[i] != B_OPEN_BRACE && s[i]
            != B_CLOSE_BRACE))
}

fn node_base_bytes_valid(v: &Vec<u8>) -> (r: bool)
    ensures
        r == valid_node_base_bytes(v@),
{
    if v.len() == 0 {
        return false;
    }
    if 48 <= v[0] && v[0] <= 57 {
        return false;
    }
    let mut i: usize = 0;
    while i < v.len()
        invariant
            0 <= i <= v@.len(),
            forall|j: int|
                0 <= j < i ==> (is_alpha_byte(#[trigger] v@[j]) || is_digit_byte(v@[j]) || v@[j]
                    == B_UNDERSCORE),
        decreases v@.len() - i,
    {
        let c = v[i];
        if !((65 <= c && c <= 90) || (97 <= c && c <= 122) || (48 <= c && c <= 57) || c
            == B_UNDERSCORE) {
            return false;
        }
        i = i + 1;
    }
    has_no_repeat(v, B_UNDERSCORE)
}

fn node_namespace_bytes_valid(v: &Vec<u8>) -> (r: bool)
    ensures
        r == valid_node_namespace_bytes(v@),
{
    if !namespace_bytes_valid(v) {
        return false;
    }
    let mut i: usize = 0;
    while i < v.len()
        invariant
            0 <= i <= v@.len(),
            forall|j: int|
                0 <= j < i ==> (#[trigger] v@[j] != B_TILDE && v@[j] != B_OPEN_BRACE && v@[j]
                    != B_CLOSE_BRACE),
        decreases v@.len() - i,
    {
        let c = v[i];
        if c == B_TILDE || c == B_OPEN_BRACE || c == B_CLOSE_BRACE {
            return false;
        }
        i = i + 1;
    }
    true
}

/// The name a node itself carries in the graph.
#[derive(Clone, Debug)]
pub struct NodeName {
    pub namespace: Vec<u8>,
    pub base: Vec<u8>,
}

impl NodeName {
    pub open spec fn wf(&self) -> bool {
        &&& valid_node_base_bytes(self.base@)
        &&& (self.namespace@.len() == 0 || valid_node_namespace_bytes(self.namespace@))
    }

    pub fn new(namespace: Vec<u8>, base: Vec<u8>) -> (r: Result<NodeName, NameError>)
        ensures
            r.is_ok() == ((namespace@.len() == 0 || valid_node_namespace_bytes(namespace@))
                && valid_node_base_bytes(base@)),
            r matches Ok(n) ==> n.wf() && n.namespace@ == namespace@ && n.base@ == base@,
    {
        let ns_ok = namespace.len() == 0 || node_namespace_bytes_valid(&namespace);
        if ns_ok && node_base_bytes_valid(&base) {
            Ok(NodeName { namespace, base })
        } else {
            Err(NameError::Invalid)
        }
    }

    /// Checks well-formedness of a node name value, for callers outside
    /// the proofs that hold names of unknown provenance.
    pub fn wf_check(&self) -> (r: bool)
        ensures
            r == self.wf(),
    {
        let ns_ok = self.namespace.len() == 0 || node_namespace_bytes_valid(&self.namespace);
        ns_ok && node_base_bytes_valid(&self.base)
    }

    /// `/namespace/base` (or `/base` for the root namespace): the form the
    /// node is known by in the graph.
    pub fn fully_qualified_name(&self) -> (r: Vec<u8>)
        ensures
            r@ == spec_render(self.namespace@, self.base@),
    {
        let mut out: Vec<u8> = Vec::new();
        out.push(B_SLASH);
        if self.namespace.len() > 0 {
            append_bytes(&mut out, &self.namespace);
            out.push(B_SLASH);
        }
        append_bytes(&mut out, &self.base);
        proof {
            assert(out@ =~= spec_render(self.namespace@, self.base@));
        }
        out
    }
}

/// The (namespace, base) pair a name denotes once the private-namespace
/// tilde is resolved against the owning node: `~/rest` grafts `rest` under
/// the node's own name, and the bare name `~` denotes the node itself.
pub open spec fn spec_resolve(
    ns: Seq<u8>,
    base: Seq<u8>,
    node_ns: Seq<u8>,
    node_base: Seq<u8>,
) -> (Seq<u8>, Seq<u8>) {
    if ns.len() > 0 && ns[0] == B_TILDE {
        (spec_join(node_ns, node_base) + ns.skip(1), base)
    } else if ns.len() == 0 && base == seq![B_TILDE] {
        (node_ns, node_base)
    } else {
        (ns, base)
    }
}

/// The DDS topic name: `<prefix>/<namespace>/<base><suffix>`.
pub open spec fn spec_dds_name(prefix: Seq<u8>, ns: Seq<u8>, base: Seq<u8>, suffix: Seq<u8>)
    -> Seq<u8> {
    prefix + seq![B_SLASH] + ns + seq![B_SLASH] + base + suffix
}

impl Name {
    /// Renders the name to its DDS topic form, resolving a leading tilde
    /// against the owning node's name.
    pub fn to_dds_name(&self, prefix: TopicPrefix, node: &NodeName, suffix: &Vec<u8>) -> (r: Vec<
        u8,
    >)
        ensures
            ({
                let resolved = spec_resolve(self.namespace@, self.base@, node.namespace@,
                    node.base@);
                r@ == spec_dds_name(prefix.spec_bytes(), resolved.0, resolved.1, suffix@)
            }),
    {
        let mut rns: Vec<u8> = Vec::new();
        let mut rbase: Vec<u8> = Vec::new();
        if self.namespace.len() > 0 && self.namespace[0] == B_TILDE {
            if node.namespace.len() > 0 {
                append_bytes(&mut rns, &node.namespace);
                rns.push(B_SLASH);
            }
            append_bytes(&mut rns, &node.base);
            let rest = copy_range(&self.namespace, 1, self.namespace.len());
            append_bytes(&mut rns, &rest);
            append_bytes(&mut rbase, &self.base);
            proof {
                assert(rns@ =~= spec_join(node.namespace@, node.base@) + self.namespace@.skip(1));
            }
        } else if self.namespace.len() == 0 && self.base.len() == 1 && self.base[0] == B_TILDE {
            append_bytes(&mut rns, &node.namespace);
            append_bytes(&mut rbase, &node.base);
            proof {
                assert(self.base@ =~= seq![B_TILDE]);
            }
        } else {
            append_bytes(&mut rns, &self.namespace);
            append_bytes(&mut rbase, &self.base);
            proof {
                assert(self.base@ == seq![B_TILDE] ==> self.base@.len() == 1 && self.base@[0]
                    == B_TILDE);
            }
        }
        let mut out: Vec<u8> = Vec::new();
        match prefix {
            TopicPrefix::Topic => {
                out.push(114);
                out.push(116);
            },
            TopicPrefix::ServiceRequest => {
                out.push(114);
                out.push(113);
            },
            TopicPrefix::ServiceReply => {
                out.push(114);
                out.push(114);
            },
        }
        out.push(B_SLASH);
        append_bytes(&mut out, &rns);
        out.push(B_SLASH);
        append_bytes(&mut out, &rbase);
        append_bytes(&mut out, suffix);
        proof {
            let resolved = spec_resolve(self.namespace@, self.base@, node.namespace@, node.base@);
            assert(out@ =~= spec_dds_name(prefix.spec_bytes(), resolved.0, resolved.1, suffix@));
        }
        out
    }
}

/// A string without braces keeps the brace discipline.
pub proof fn lemma_braces_ok_no_braces(s: Seq<u8>, i: int)
    requires
        0 <= i <= s.len(),
        forall|j: int|
            0 <= j < s.len() ==> (#[trigger] s[j] != B_OPEN_BRACE && s[j] != B_CLOSE_BRACE),
    ensures
        braces_ok_from(s, i, false),
    decreases s.len() - i,
{
    if i < s.len() {
        lemma_braces_ok_no_braces(s, i + 1);
    }
}

/// A non-empty string of alphanumerics and single underscores is a valid
/// base segment.
pub proof fn lemma_plain_segment_valid(s: Seq<u8>)
    requires
        s.len() > 0,
        forall|i: int|
            0 <= i < s.len() ==> (is_alpha_byte(#[trigger] s[i]) || is_digit_byte(s[i]) || s[i]
                == B_UNDERSCORE),
        no_repeat(s, B_UNDERSCORE),
    ensures
        valid_base_bytes(s),
{
    lemma_braces_ok_no_braces(s, 0);
}

impl Name {
    /// Checks well-formedness of a name value, for callers outside the
    /// proofs that hold names of unknown provenance.
    pub fn wf_check(&self) -> (r: bool)
        ensures
            r == self.wf(),
    {
        let ns_ok = self.namespace.len() == 0 || namespace_bytes_valid(&self.namespace);
        ns_ok && base_bytes_valid(&self.base)
    }

    /// As `push`, for a segment already known valid.
    pub fn child(&self, seg: Vec<u8>) -> (r: Name)
        requires
            self.wf(),
            valid_base_bytes(seg@),
        ensures
            r.wf(),
            r.namespace@ == spec_join(self.namespace@, self.base@),
            r.base@ == seg@,
    {
        let mut ns: Vec<u8> = Vec::new();
        if self.namespace.len() > 0 {
            append_bytes(&mut ns, &self.namespace);
            ns.push(B_SLASH);
        }
        append_bytes(&mut ns, &self.base);
        proof {
            assert(ns@ =~= spec_join(self.namespace@, self.base@));
            lemma_join_valid(self.namespace@, self.base@);
        }
        Name { namespace: ns, base: seg }
    }
}

} // verus!
