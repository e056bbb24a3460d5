use vstd::prelude::*;

use crate::text::{chars_of, push_char};

verus! {

/// Unicode `White_Space`, the characters `char::is_whitespace` accepts and
/// `str::trim` removes.
pub open spec fn is_white_space(c: char) -> bool {
    ||| '\u{9}' <= c <= '\u{d}'
    ||| c == ' '
    ||| c == '\u{85}'
    ||| c == '\u{a0}'
    ||| c == '\u{1680}'
    ||| '\u{2000}' <= c <= '\u{200a}'
    ||| c == '\u{2028}'
    ||| c == '\u{2029}'
    ||| c == '\u{202f}'
    ||| c == '\u{205f}'
    ||| c == '\u{3000}'
}

/// Nothing but white space: the text trims to the empty string.
pub open spec fn is_blank(s: Seq<char>) -> bool {
    forall|i: int| 0 <= i < s.len() ==> is_white_space(#[trigger] s[i])
}

/// ASCII lower-casing of one character; other characters are unchanged.
pub open spec fn ascii_lower(c: char) -> char {
    if 'A' <= c <= 'Z' {
        ((c as u32) + 32) as char
    } else {
        c
    }
}

/// ASCII lower-casing of a text.
pub open spec fn ascii_lowercase(s: Seq<char>) -> Seq<char> {
    s.map_values(|c: char| ascii_lower(c))
}

/// `pat` occurs in `s` starting at position `i`.
pub open spec fn occurs_at(s: Seq<char>, pat: Seq<char>, i: int) -> bool {
    &&& 0 <= i
    &&& i + pat.len() <= s.len()
    &&& forall|j: int| 0 <= j < pat.len() ==> s[i + j] == #[trigger] pat[j]
}

/// `pat` occurs somewhere in `s`.
pub open spec fn contains_text(s: Seq<char>, pat: Seq<char>) -> bool {
    exists|i: int| occurs_at(s, pat, i)
}

/// The markers of signing material that a watch-only descriptor must not
/// hold, in any ASCII case.
pub open spec fn has_signer_marker(s: Seq<char>) -> bool {
    let l = ascii_lowercase(s);
    ||| contains_text(l, seq!['x', 'p', 'r', 'v'])
    ||| contains_text(l, seq!['t', 'p', 'r', 'v'])
    ||| contains_text(l, seq!['s', 'e', 'e', 'd'])
}

/// Why a descriptor text is refused, if it is: blank text first, then
/// signer markers.
pub open spec fn descriptor_rejection(s: Seq<char>) -> Option<DescriptorError> {
    if is_blank(s) {
        Some(DescriptorError::Empty)
    } else if has_signer_marker(s) {
        Some(DescriptorError::SignerMaterial)
    } else {
        None
    }
}

/// The first eighteen characters of a descriptor followed by `...`.
pub open spec fn redacted(s: Seq<char>) -> Seq<char> {
    s.take(if s.len() < 18 {
        s.len() as int
    } else {
        18
    }) + "..."@
}

/// Why a descriptor was refused.
#[derive(Clone, Copy, Debug, PartialEq, Eq, Structural)]
pub enum DescriptorError {
    Empty,
    SignerMaterial,
}

impl DescriptorError {
    /// The message the error is displayed with.
    pub fn message(&self) -> (s: &'static str)
        ensures
            s@ == match self {
                DescriptorError::Empty => "descriptor is empty"@,
                DescriptorError::SignerMaterial => "descriptor appears to contain signer material"@,
            },
    {
        match self {
            DescriptorError::Empty => "descriptor is empty",
            DescriptorError::SignerMaterial => "descriptor appears to contain signer material",
        }
    }
}

/// A descriptor text that passed the watch-only guard.
#[derive(Debug, PartialEq, Eq)]
pub struct WatchOnlyDescriptor(String);

impl Clone for WatchOnlyDescriptor {
    fn clone(&self) -> (r: Self)
        ensures
            r@ == self@,
    {
        proof {
            use_type_invariant(self);
        }
        WatchOnlyDescriptor(self.0.clone())
    }
}

impl View for WatchOnlyDescriptor {
    type V = Seq<char>;

    closed spec fn view(&self) -> Seq<char> {
        self.0@
    }
}

impl WatchOnlyDescriptor {
    #[verifier::type_invariant]
    closed spec fn watch_only(self) -> bool {
        descriptor_rejection(self.0@) is None
    }

    /// Accepts a descriptor unless it is blank or holds a signer marker.
    pub fn parse(value: String) -> (r: Result<WatchOnlyDescriptor, DescriptorError>)
        ensures
            match descriptor_rejection(value@) {
                Some(e) => r == Err::<WatchOnlyDescriptor, DescriptorError>(e),
                None => r matches Ok(d) && d@ == value@,
            },
    {
        let chars = chars_of(value.as_str());
        if all_white_space(&chars) {
            return Err(DescriptorError::Empty);
        }
        if holds_signer_marker(&chars) {
            return Err(DescriptorError::SignerMaterial);
        }
        Ok(WatchOnlyDescriptor(value))
    }

    /// The descriptor text; it never holds a signer marker.
    pub fn as_str(&self) -> (s: &str)
        ensures
            s@ == self@,
            descriptor_rejection(s@) is None,
    {
        proof {
            use_type_invariant(self);
        }
        self.0.as_str()
    }

    /// The first eighteen characters of the descriptor followed by `...`.
    pub fn redacted_scope(&self) -> (s: String)
        ensures
            s@ == redacted(self@),
    {
        redact(self.0.as_str())
    }
}

/// The first eighteen characters of `s` followed by `...`.
pub fn redact(s: &str) -> (r: String)
    ensures
        r@ == redacted(s@),
{
    let chars = chars_of(s);
    let n: usize = if chars.len() < 18 {
        chars.len()
    } else {
        18
    };
    let mut r = String::new();
    for i in 0..n
        invariant
            n <= chars@.len(),
            r@ == chars@.take(i as int),
    {
        push_char(&mut r, chars[i]);
        assert(chars@.take(i + 1) =~= chars@.take(i as int).push(chars@[i as int]));
    }
    r.append("...");
    r
}

/// Whether a character is Unicode white space.
pub fn white_space(c: char) -> (r: bool)
    ensures
        r == is_white_space(c),
{
    ('\u{9}' <= c && c <= '\u{d}') || c == ' ' || c == '\u{85}' || c == '\u{a0}' || c == '\u{1680}'
        || ('\u{2000}' <= c && c <= '\u{200a}') || c == '\u{2028}' || c == '\u{2029}' || c
        == '\u{202f}' || c == '\u{205f}' || c == '\u{3000}'
}

fn all_white_space(chars: &Vec<char>) -> (r: bool)
    ensures
        r == is_blank(chars@),
{
    for i in 0..chars.len()
        invariant
            forall|j: int| 0 <= j < i ==> is_white_space(#[trigger] chars@[j]),
    {
        if !white_space(chars[i]) {
            return false;
        }
    }
    true
}

fn lower_char(c: char) -> (r: char)
    ensures
        r == ascii_lower(c),
{
    if 'A' <= c && c <= 'Z' {
        let b: u8 = (c as u8) + 32;
        b as char
    } else {
        c
    }
}

fn occurs_lowered_at(s: &Vec<char>, pat: &Vec<char>, i: usize) -> (r: bool)
    requires
        i + pat@.len() <= s@.len(),
    ensures
        r == occurs_at(ascii_lowercase(s@), pat@, i as int),
{
    let ghost l = ascii_lowercase(s@);
    let mut j: usize = 0;
    while j < pat.len()
        invariant
            i + pat@.len() <= s@.len(),
            s@.len() == s.len(),
            j <= pat@.len(),
            l == ascii_lowercase(s@),
            forall|x: int| 0 <= x < j ==> l[i + x] == #[trigger] pat@[x],
        decreases pat.len() - j,
    {
        assert(i + j < s@.len());
        if lower_char(s[i + j]) != pat[j] {
            return false;
        }
        j = j + 1;
    }
    true
}

fn contains_lowered(s: &Vec<char>, pat: &Vec<char>) -> (r: bool)
    ensures
        r == contains_text(ascii_lowercase(s@), pat@),
{
    if pat.len() > s.len() {
        return false;
    }
    let last = s.len() - pat.len();
    let mut i: usize = 0;
    loop
        invariant
            last + pat@.len() == s@.len(),
            i <= last,
            forall|x: int| 0 <= x < i ==> !occurs_at(ascii_lowercase(s@), pat@, x),
        decreases last - i,
    {
        if occurs_lowered_at(s, pat, i) {
            return true;
        }
        if i == last {
            return false;
        }
        i = i + 1;
    }
}

fn holds_signer_marker(chars: &Vec<char>) -> (r: bool)
    ensures
        r == has_signer_marker(chars@),
{
    let xprv = vec!['x', 'p', 'r', 'v'];
    let tprv = vec!['t', 'p', 'r', 'v'];
    let seed = vec!['s', 'e', 'e', 'd'];
    assert(xprv@ =~= seq!['x', 'p', 'r', 'v']);
    assert(tprv@ =~= seq!['t', 'p', 'r', 'v']);
    assert(seed@ =~= seq!['s', 'e', 'e', 'd']);
    contains_lowered(chars, &xprv) || contains_lowered(chars, &tprv) || contains_lowered(chars, &seed)
}

/// `c` is the letter `lower` in either ASCII case.
pub open spec fn letter_either_case(c: char, lower: char, upper: char) -> bool {
    c == lower || c == upper
}

/// The four letters at position `i`, in any ASCII case, spell `xprv`.
pub open spec fn xprv_at(s: Seq<char>, i: int) -> bool {
    0 <= i && i + 4 <= s.len() && letter_either_case(s[i], 'x', 'X') && letter_either_case(
        s[i + 1],
        'p',
        'P',
    ) && letter_either_case(s[i + 2], 'r', 'R') && letter_either_case(s[i + 3], 'v', 'V')
}

/// The four letters at position `i`, in any ASCII case, spell `tprv`.
pub open spec fn tprv_at(s: Seq<char>, i: int) -> bool {
    0 <= i && i + 4 <= s.len() && letter_either_case(s[i], 't', 'T') && letter_either_case(
        s[i + 1],
        'p',
        'P',
    ) && letter_either_case(s[i + 2], 'r', 'R') && letter_either_case(s[i + 3], 'v', 'V')
}

/// The four letters at position `i`, in any ASCII case, spell `seed`.
pub open spec fn seed_at(s: Seq<char>, i: int) -> bool {
    0 <= i && i + 4 <= s.len() && letter_either_case(s[i], 's', 'S') && letter_either_case(
        s[i + 1],
        'e',
        'E',
    ) && letter_either_case(s[i + 2], 'e', 'E') && letter_either_case(s[i + 3], 'd', 'D')
}

proof fn lemma_lower_is(c: char, lower: char, upper: char)
    requires
        'a' <= lower <= 'z',
        upper as u32 + 32 == lower as u32,
    ensures
        ascii_lower(c) == lower <==> letter_either_case(c, lower, upper),
{
    if 'A' <= c && c <= 'Z' {
        assert((((c as u32) + 32) as char) as u32 == (c as u32) + 32);
    }
}

proof fn lemma_marker_at(s: Seq<char>, i: int, m: Seq<char>, up: Seq<char>)
    requires
        m.len() == 4,
        up.len() == 4,
        forall|j: int| 0 <= j < 4 ==> 'a' <= #[trigger] m[j] <= 'z' && up[j] as u32 + 32 == m[j] as u32,
    ensures
        occurs_at(ascii_lowercase(s), m, i) <==> (0 <= i && i + 4 <= s.len() && forall|j: int|
            0 <= j < 4 ==> letter_either_case(#[trigger] s[i + j], m[j], up[j])),
{
    let l = ascii_lowercase(s);
    if 0 <= i && i + 4 <= s.len() {
        assert forall|j: int| 0 <= j < 4 implies (l[i + j] == #[trigger] m[j]
            <==> letter_either_case(s[i + j], m[j], up[j])) by {
            lemma_lower_is(s[i + j], m[j], up[j]);
        }
    }
}

/// A descriptor that is not blank is refused as signer material exactly
/// when `xprv`, `tprv` or `seed` occurs in it, in any mix of ASCII cases;
/// nothing else (an `xpub` key, say) makes it signer material.
pub proof fn lemma_signer_markers_exactly(s: Seq<char>)
    ensures
        descriptor_rejection(s) == Some(DescriptorError::SignerMaterial) <==> (!is_blank(s) && exists|
            i: int,
        | xprv_at(s, i) || tprv_at(s, i) || seed_at(s, i)),
        descriptor_rejection(s) is None <==> (!is_blank(s) && forall|i: int|
            !xprv_at(s, i) && !tprv_at(s, i) && !seed_at(s, i)),
{
    let x = seq!['x', 'p', 'r', 'v'];
    let xu = seq!['X', 'P', 'R', 'V'];
    let t = seq!['t', 'p', 'r', 'v'];
    let tu = seq!['T', 'P', 'R', 'V'];
    let e = seq!['s', 'e', 'e', 'd'];
    let eu = seq!['S', 'E', 'E', 'D'];
    assert forall|i: int| occurs_at(ascii_lowercase(s), x, i) <==> xprv_at(s, i) by {
        lemma_marker_at(s, i, x, xu);
    }
    assert forall|i: int| occurs_at(ascii_lowercase(s), t, i) <==> tprv_at(s, i) by {
        lemma_marker_at(s, i, t, tu);
    }
    assert forall|i: int| occurs_at(ascii_lowercase(s), e, i) <==> seed_at(s, i) by {
        lemma_marker_at(s, i, e, eu);
    }
    let l = ascii_lowercase(s);
    if exists|i: int| xprv_at(s, i) || tprv_at(s, i) || seed_at(s, i) {
        let i = choose|i: int| xprv_at(s, i) || tprv_at(s, i) || seed_at(s, i);
        if xprv_at(s, i) {
            assert(occurs_at(l, x, i));
            assert(contains_text(l, x));
        } else if tprv_at(s, i) {
            assert(occurs_at(l, t, i));
            assert(contains_text(l, t));
        } else {
            assert(occurs_at(l, e, i));
            assert(contains_text(l, e));
        }
        assert(has_signer_marker(s));
    }
    if has_signer_marker(s) {
        if contains_text(l, x) {
            let i = choose|i: int| occurs_at(l, x, i);
            assert(xprv_at(s, i));
        } else if contains_text(l, t) {
            let i = choose|i: int| occurs_at(l, t, i);
            assert(tprv_at(s, i));
        } else {
            let i = choose|i: int| occurs_at(l, e, i);
            assert(seed_at(s, i));
        }
    }
}

} // verus!
