//! Decisions of the GTK window that do not depend on GTK: timer and
//! countdown display, keyboard accelerators and preset ids.

use vstd::prelude::*;
use crate::config::{accel_meaning, Keybinds};
use crate::text::{
    alphanumeric_char, append_chars, ascii_lower, ascii_lower_char, char_is_alphanumeric,
    chars_eq, chars_of, contains, decimal, decimal_chars, is_ascii_char, is_ws, occurs_at,
    push_char, split_on, str_eq, string_of, strip_leading, strip_leading_chars, strip_trailing,
    strip_trailing_chars, to_lowercase, trim, trim_end, trim_start, unicode_lowercase,
    lemma_find_from_range, lemma_split_len_pos,
};

verus! {

/// Two digits at least, zero-padded.
pub open spec fn pad2(n: nat) -> Seq<char> {
    if n < 10 {
        seq!['0'] + decimal(n)
    } else {
        decimal(n)
    }
}

/// Elapsed time as `HH:MM:SS`.
pub open spec fn elapsed_text(secs: nat) -> Seq<char> {
    pad2(secs / 3600) + seq![':'] + pad2((secs / 60) % 60) + seq![':'] + pad2(secs % 60)
}

fn append_pad2(s: &mut String, n: u64)
    ensures
        final(s)@ == old(s)@ + pad2(n as nat),
{
    if n < 10 {
        push_char(s, '0');
    }
    let d = decimal_chars(n);
    append_chars(s, &d);
    assert(final(s)@ =~= old(s)@ + pad2(n as nat));
}

/// Elapsed recording time as `HH:MM:SS` (hours keep all their digits).
pub fn format_elapsed(secs: u64) -> (r: String)
    ensures
        r@ == elapsed_text(secs as nat),
{
    let mut r = String::new();
    append_pad2(&mut r, secs / 3600);
    push_char(&mut r, ':');
    append_pad2(&mut r, (secs / 60) % 60);
    push_char(&mut r, ':');
    append_pad2(&mut r, secs % 60);
    assert(r@ =~= elapsed_text(secs as nat));
    r
}

pub open spec fn countdown_color_text(secs: u64) -> Seq<char> {
    if secs <= 1 {
        "#e01b24"@
    } else if secs == 2 {
        "#f5c211"@
    } else {
        "#3584e4"@
    }
}

/// Colour of the countdown number: red for the last second, yellow for
/// two, blue above.
pub fn countdown_color(secs: u64) -> (r: &'static str)
    ensures
        r@ == countdown_color_text(secs),
{
    if secs <= 1 {
        "#e01b24"
    } else if secs == 2 {
        "#f5c211"
    } else {
        "#3584e4"
    }
}

/// The name of a captured key as stored: one ASCII character is
/// lowercased, anything else is kept.
pub open spec fn stored_key_name(key: Seq<char>) -> Seq<char> {
    if key.len() == 1 && is_ascii_char(key[0]) {
        ascii_lower(key)
    } else {
        key
    }
}

/// A captured key combination in GTK accelerator notation.
pub open spec fn accel_text(ctrl: bool, alt: bool, shift: bool, sup: bool, key: Seq<char>) -> Seq<char> {
    (if ctrl {
        "<Control>"@
    } else {
        seq![]
    }) + (if alt {
        "<Alt>"@
    } else {
        seq![]
    }) + (if shift {
        "<Shift>"@
    } else {
        seq![]
    }) + (if sup {
        "<Super>"@
    } else {
        seq![]
    }) + stored_key_name(key)
}

/// Format a captured key press with its modifiers as an accelerator.
pub fn format_accel(ctrl: bool, alt: bool, shift: bool, sup: bool, key_name: &str) -> (r: String)
    ensures
        r@ == accel_text(ctrl, alt, shift, sup, key_name@),
{
    let mut s = String::new();
    assert(s@ =~= seq![]);
    if ctrl {
        s.append("<Control>");
    }
    if alt {
        s.append("<Alt>");
    }
    if shift {
        s.append("<Shift>");
    }
    if sup {
        s.append("<Super>");
    }
    let ghost head = s@;
    let k = chars_of(key_name);
    if k.len() == 1 && (k[0] as u32) < 128 {
        let low = to_lowercase(key_name);
        assert(crate::text::all_ascii(key_name@));
        s.append(low.as_str());
    } else {
        s.append(key_name);
    }
    assert(s@ =~= accel_text(ctrl, alt, shift, sup, key_name@)) by {
        assert(head =~= (if ctrl {
            "<Control>"@
        } else {
            seq![]
        }) + (if alt {
            "<Alt>"@
        } else {
            seq![]
        }) + (if shift {
            "<Shift>"@
        } else {
            seq![]
        }) + (if sup {
            "<Super>"@
        } else {
            seq![]
        }));
    }
    s
}

pub open spec fn bare_modifiers() -> Seq<Seq<char>> {
    seq![
        "Control_L"@,
        "Control_R"@,
        "Alt_L"@,
        "Alt_R"@,
        "Shift_L"@,
        "Shift_R"@,
        "Super_L"@,
        "Super_R"@,
    ]
}

/// Whether a key name is a bare modifier, which a capture ignores.
pub fn is_bare_modifier(key_name: &str) -> (r: bool)
    ensures
        r == bare_modifiers().contains(key_name@),
{
    let names: Vec<&str> = vec![
        "Control_L", "Control_R", "Alt_L", "Alt_R", "Shift_L", "Shift_R", "Super_L", "Super_R",
    ];
    assert(names@.map_values(|s: &str| s@) =~= bare_modifiers());
    let mut i: usize = 0;
    while i < names.len()
        invariant
            i <= names@.len(),
            names@.map_values(|s: &str| s@) == bare_modifiers(),
            forall|j: int| 0 <= j < i ==> bare_modifiers()[j] != key_name@,
        decreases names.len() - i,
    {
        assert(names@[i as int]@ == bare_modifiers()[i as int]);
        if str_eq(names[i], key_name) {
            return true;
        }
        i = i + 1;
    }
    false
}

/// Keys that end a shortcut capture without assigning anything.
pub open spec fn capture_end_keys() -> Seq<Seq<char>> {
    seq!["Escape"@, "Return"@, "KP_Enter"@]
}

/// What a key press does to a running shortcut capture.
#[derive(Debug, Clone, PartialEq, Eq)]
pub enum CaptureStep {
    /// Esc or Enter: the capture ends and the shortcut keeps its value.
    Keep,
    /// A bare modifier: keep listening.
    Wait,
    /// The combination becomes the shortcut, in accelerator notation.
    Assign(String),
}

pub open spec fn capture_view(c: CaptureStep) -> Option<Option<Seq<char>>> {
    match c {
        CaptureStep::Keep => None,
        CaptureStep::Wait => Some(None),
        CaptureStep::Assign(a) => Some(Some(a@)),
    }
}

/// A key press during capture: Esc, Return and keypad Enter keep the
/// current shortcut (`None`), a bare modifier waits (`Some(None)`), any
/// other key assigns its accelerator.
pub open spec fn capture_outcome(ctrl: bool, alt: bool, shift: bool, sup: bool, key: Seq<char>) -> Option<
    Option<Seq<char>>,
> {
    if capture_end_keys().contains(key) {
        None
    } else if bare_modifiers().contains(key) {
        Some(None)
    } else {
        Some(Some(accel_text(ctrl, alt, shift, sup, key)))
    }
}

/// Decide what a key press does while a shortcut is being captured.
pub fn capture_step(ctrl: bool, alt: bool, shift: bool, sup: bool, key_name: &str) -> (r: CaptureStep)
    ensures
        capture_view(r) == capture_outcome(ctrl, alt, shift, sup, key_name@),
{
    let ends = vec!["Escape", "Return", "KP_Enter"];
    assert(ends@.map_values(|s: &str| s@) =~= capture_end_keys());
    let mut i: usize = 0;
    while i < ends.len()
        invariant
            i <= ends@.len(),
            ends@.map_values(|s: &str| s@) == capture_end_keys(),
            forall|j: int| 0 <= j < i ==> capture_end_keys()[j] != key_name@,
        decreases ends.len() - i,
    {
        assert(ends@[i as int]@ == capture_end_keys()[i as int]);
        if str_eq(ends[i], key_name) {
            return CaptureStep::Keep;
        }
        i = i + 1;
    }
    if is_bare_modifier(key_name) {
        CaptureStep::Wait
    } else {
        CaptureStep::Assign(format_accel(ctrl, alt, shift, sup, key_name))
    }
}

/// Whether a key press with these modifiers and key name triggers the
/// accelerator: both lowercased, the modifiers equal and the key names
/// equal.
pub open spec fn accel_triggered(accel: Seq<char>, ctrl: bool, alt: bool, shift: bool, key: Seq<char>) -> bool {
    match accel_meaning(unicode_lowercase(accel)) {
        Some((kc, ka, ks, kk)) => ctrl == kc && alt == ka && shift == ks && unicode_lowercase(key)
            == kk,
        None => false,
    }
}

/// Whether a key press matches the stored accelerator `accel`.
pub fn accel_matches(accel: &str, ctrl: bool, alt: bool, shift: bool, key_name: &str) -> (r: bool)
    ensures
        r == accel_triggered(accel@, ctrl, alt, shift, key_name@),
{
    let key = to_lowercase(key_name);
    match Keybinds::parse_accel(accel) {
        Some((kc, ka, ks, kk)) => ctrl == kc && alt == ka && shift == ks && str_eq(
            key.as_str(),
            kk.as_str(),
        ),
        None => false,
    }
}

pub open spec fn slug_char(c: char) -> char {
    if alphanumeric_char(c) {
        c
    } else {
        '-'
    }
}

/// The id of a user preset named `name`: lowercased, every character that
/// is not alphanumeric turned into `-`, and `-` trimmed from both ends.
pub open spec fn slug_text(name: Seq<char>) -> Seq<char> {
    strip_trailing(
        strip_leading(unicode_lowercase(name).map_values(|c: char| slug_char(c)), '-'),
        '-',
    )
}

/// The id under which a user preset named `name` is saved.
pub fn slugify(name: &str) -> (r: String)
    ensures
        r@ == slug_text(name@),
{
    let lower = to_lowercase(name);
    let v = chars_of(lower.as_str());
    let mut m: Vec<char> = Vec::new();
    let mut i: usize = 0;
    while i < v.len()
        invariant
            i <= v@.len(),
            m@ == v@.take(i as int).map_values(|c: char| slug_char(c)),
        decreases v.len() - i,
    {
        let c = v[i];
        if char_is_alphanumeric(c) {
            m.push(c);
        } else {
            m.push('-');
        }
        i = i + 1;
        assert(m@ =~= v@.take(i as int).map_values(|c: char| slug_char(c)));
    }
    assert(v@.take(v@.len() as int) =~= v@);
    let a = strip_leading_chars(&m, '-');
    let b = strip_trailing_chars(&a, '-');
    string_of(&b)
}

// ---------------------------------------------------------------------------
// A captured accelerator is matched by the key press it was captured from
// ---------------------------------------------------------------------------

/// Every `<` of `x` is followed, `d` places later, by a character other
/// than `ch`.
spec fn lt_safe(x: Seq<char>, d: int, ch: char) -> bool {
    forall|j: int|
        0 <= j < x.len() && #[trigger] x[j] == '<' ==> j + d < x.len() && x[j + d] != ch
}

proof fn lemma_lt_safe_concat(x: Seq<char>, y: Seq<char>, d: int, ch: char)
    requires
        d >= 0,
        lt_safe(x, d, ch),
        lt_safe(y, d, ch),
    ensures
        lt_safe(x + y, d, ch),
{
    let z = x + y;
    assert forall|j: int| 0 <= j < z.len() && #[trigger] z[j] == '<' implies j + d < z.len() && z[j
        + d] != ch by {
        if j < x.len() {
            assert(x[j] == '<');
            assert(z[j + d] == x[j + d]);
        } else {
            assert(y[j - x.len()] == '<');
            assert(z[j + d] == y[j - x.len() + d]);
        }
    }
}

/// A text in which every `<` is followed by something else than `tok`
/// continues has no occurrence of `tok`.
proof fn lemma_absent(s: Seq<char>, tok: Seq<char>, d: int)
    requires
        1 <= d < tok.len(),
        tok[0] == '<',
        lt_safe(s, d, tok[d]),
    ensures
        !contains(s, tok),
{
    assert forall|i: int| !occurs_at(s, tok, i) by {
        if occurs_at(s, tok, i) {
            assert(s.subrange(i, i + tok.len())[0] == tok[0]);
            assert(s[i] == '<');
            assert(s.subrange(i, i + tok.len())[d] == tok[d]);
        }
    }
}

proof fn lemma_present(a: Seq<char>, tok: Seq<char>, b: Seq<char>)
    ensures
        contains(a + tok + b, tok),
{
    let s = a + tok + b;
    assert(s.subrange(a.len() as int, (a.len() + tok.len()) as int) =~= tok);
    assert(occurs_at(s, tok, a.len() as int));
}

proof fn lemma_lower_concat(a: Seq<char>, b: Seq<char>)
    ensures
        ascii_lower(a + b) == ascii_lower(a) + ascii_lower(b),
{
    assert(ascii_lower(a + b) =~= ascii_lower(a) + ascii_lower(b));
}

proof fn lemma_lower_idempotent(s: Seq<char>)
    ensures
        ascii_lower(ascii_lower(s)) == ascii_lower(s),
{
    assert forall|i: int| 0 <= i < s.len() implies ascii_lower_char(ascii_lower_char(s[i]))
        == ascii_lower_char(s[i]) by {
        let c = s[i];
        if 'A' <= c && c <= 'Z' {
            assert((((c as u32) + 32) as char) as u32 == (c as u32) + 32);
        }
    }
    assert(ascii_lower(ascii_lower(s)) =~= ascii_lower(s));
}

/// With `p` empty or ending in `c` and no `c` in `k`, the last piece of
/// `p + k` split at `c` is `k`.
proof fn lemma_split_last_suffix(p: Seq<char>, k: Seq<char>, c: char)
    requires
        p.len() == 0 || p.last() == c,
        forall|i: int| 0 <= i < k.len() ==> k[i] != c,
    ensures
        split_on(p + k, c).last() == k,
    decreases p.len(),
{
    let s = p + k;
    lemma_find_from_range(s, c, 0);
    if p.len() == 0 {
        assert(s =~= k);
        match crate::text::find(s, c) {
            Some(i) => {
                assert(s[i] == k[i]);
            },
            None => {},
        }
    } else {
        assert(s[p.len() - 1] == c);
        match crate::text::find(s, c) {
            Some(i) => {
                assert(i <= p.len() - 1);
                let q = p.skip(i + 1);
                assert(s.skip(i + 1) =~= q + k);
                if q.len() > 0 {
                    assert(q.last() == p.last());
                }
                lemma_split_last_suffix(q, k, c);
                lemma_split_len_pos(q + k, c);
            },
            None => {
                assert(false);
            },
        }
    }
}

pub open spec fn key_name_ok(key: Seq<char>) -> bool {
    &&& key.len() > 0
    &&& forall|i: int|
        0 <= i < key.len() ==> is_ascii_char(#[trigger] key[i]) && key[i] != '<' && key[i] != '>'
            && !is_ws(key[i])
}

proof fn lemma_token_safe(t: Seq<char>, d: int, ch: char)
    requires
        0 <= d,
        t.len() == 0 || (t[0] == '<' && d < t.len() && t[d] != ch && forall|j: int|
            1 <= j < t.len() ==> t[j] != '<'),
    ensures
        lt_safe(t, d, ch),
{
}

spec fn tok_c(b: bool) -> Seq<char> {
    if b {
        "<control>"@
    } else {
        seq![]
    }
}

spec fn tok_a(b: bool) -> Seq<char> {
    if b {
        "<alt>"@
    } else {
        seq![]
    }
}

spec fn tok_sh(b: bool) -> Seq<char> {
    if b {
        "<shift>"@
    } else {
        seq![]
    }
}

spec fn tok_su(b: bool) -> Seq<char> {
    if b {
        seq!['<', 's', 'u', 'p', 'e', 'r', '>']
    } else {
        seq![]
    }
}

/// The lowercased accelerator is the lowercased modifier tokens followed
/// by the lowercased key.
proof fn lemma_lowered_text(ctrl: bool, alt: bool, shift: bool, sup: bool, key: Seq<char>)
    ensures
        ascii_lower(accel_text(ctrl, alt, shift, sup, key)) == tok_c(ctrl) + tok_a(alt) + tok_sh(
            shift,
        ) + tok_su(sup) + ascii_lower(key),
{
    reveal_strlit("<Control>");
    reveal_strlit("<Alt>");
    reveal_strlit("<Shift>");
    reveal_strlit("<Super>");
    reveal_strlit("<control>");
    reveal_strlit("<alt>");
    reveal_strlit("<shift>");
    let cu: Seq<char> = if ctrl { "<Control>"@ } else { seq![] };
    let au: Seq<char> = if alt { "<Alt>"@ } else { seq![] };
    let shu: Seq<char> = if shift { "<Shift>"@ } else { seq![] };
    let suu: Seq<char> = if sup { "<Super>"@ } else { seq![] };
    let stored = stored_key_name(key);
    lemma_lower_idempotent(key);
    assert(ascii_lower(stored) == ascii_lower(key));
    assert(accel_text(ctrl, alt, shift, sup, key) == cu + au + shu + suu + stored);
    lemma_lower_concat(cu + au + shu + suu, stored);
    lemma_lower_concat(cu + au + shu, suu);
    lemma_lower_concat(cu + au, shu);
    lemma_lower_concat(cu, au);
    assert(ascii_lower(cu) =~= tok_c(ctrl));
    assert(ascii_lower(au) =~= tok_a(alt));
    assert(ascii_lower(shu) =~= tok_sh(shift));
    assert(ascii_lower(suu) =~= tok_su(sup));
}

/// The lowercased key holds no `<`, `>` or whitespace, and is not empty.
proof fn lemma_lowered_key(key: Seq<char>)
    requires
        key_name_ok(key),
    ensures
        ascii_lower(key).len() > 0,
        forall|i: int|
            0 <= i < ascii_lower(key).len() ==> #[trigger] ascii_lower(key)[i] != '>'
                && ascii_lower(key)[i] != '<' && !is_ws(ascii_lower(key)[i]),
{
    let k = ascii_lower(key);
    assert forall|i: int| 0 <= i < k.len() implies #[trigger] k[i] != '>' && k[i] != '<' && !is_ws(
        k[i],
    ) by {
        let ch = key[i];
        assert(is_ascii_char(ch) && ch != '<' && ch != '>' && !is_ws(ch));
        if 'A' <= ch && ch <= 'Z' {
            assert((((ch as u32) + 32) as char) as u32 == (ch as u32) + 32);
        }
    }
}

/// The key name read back from the lowercased accelerator is the
/// lowercased key.
proof fn lemma_key_read_back(p: Seq<char>, k: Seq<char>)
    requires
        p.len() == 0 || p.last() == '>',
        k.len() > 0,
        forall|i: int| 0 <= i < k.len() ==> #[trigger] k[i] != '>' && k[i] != '<' && !is_ws(k[i]),
    ensures
        trim(split_on(p + k, '>').last()) == k,
{
    lemma_split_last_suffix(p, k, '>');
    assert(!is_ws(k[0]));
    assert(!is_ws(k.last()));
    assert(trim_start(k) == k);
    assert(trim_end(k) == k);
}

proof fn lemma_tokens_end(ctrl: bool, alt: bool, shift: bool, sup: bool)
    ensures
        ({
            let p = tok_c(ctrl) + tok_a(alt) + tok_sh(shift) + tok_su(sup);
            p.len() == 0 || p.last() == '>'
        }),
{
    reveal_strlit("<control>");
    reveal_strlit("<alt>");
    reveal_strlit("<shift>");
}

/// Every `<` of the tokens and key is followed by something else than
/// `ch`, `d` places later, when no present token has `ch` there.
proof fn lemma_tokens_safe(
    ctrl: bool,
    alt: bool,
    shift: bool,
    sup: bool,
    k: Seq<char>,
    d: int,
    ch: char,
)
    requires
        1 <= d <= 2,
        forall|i: int| 0 <= i < k.len() ==> #[trigger] k[i] != '<',
        ctrl ==> tok_c(true)[d] != ch,
        alt ==> tok_a(true)[d] != ch,
        shift ==> tok_sh(true)[d] != ch,
        sup ==> tok_su(true)[d] != ch,
    ensures
        lt_safe(tok_c(ctrl) + tok_a(alt) + tok_sh(shift) + tok_su(sup) + k, d, ch),
{
    reveal_strlit("<control>");
    reveal_strlit("<alt>");
    reveal_strlit("<shift>");
    lemma_token_safe(tok_c(ctrl), d, ch);
    lemma_token_safe(tok_a(alt), d, ch);
    lemma_token_safe(tok_sh(shift), d, ch);
    lemma_token_safe(tok_su(sup), d, ch);
    lemma_lt_safe_concat(tok_c(ctrl), tok_a(alt), d, ch);
    lemma_lt_safe_concat(tok_c(ctrl) + tok_a(alt), tok_sh(shift), d, ch);
    lemma_lt_safe_concat(tok_c(ctrl) + tok_a(alt) + tok_sh(shift), tok_su(sup), d, ch);
    lemma_lt_safe_concat(tok_c(ctrl) + tok_a(alt) + tok_sh(shift) + tok_su(sup), k, d, ch);
}

/// Which modifier names occur in the lowercased accelerator.
proof fn lemma_flags_read_back(ctrl: bool, alt: bool, shift: bool, sup: bool, k: Seq<char>)
    requires
        forall|i: int| 0 <= i < k.len() ==> #[trigger] k[i] != '<',
    ensures
        ({
            let l = tok_c(ctrl) + tok_a(alt) + tok_sh(shift) + tok_su(sup) + k;
            &&& (contains(l, "<control>"@) || contains(l, "<ctrl>"@)) == ctrl
            &&& (contains(l, "<alt>"@) || contains(l, "<mod1>"@)) == alt
            &&& contains(l, "<shift>"@) == shift
        }),
{
    reveal_strlit("<control>");
    reveal_strlit("<ctrl>");
    reveal_strlit("<alt>");
    reveal_strlit("<mod1>");
    reveal_strlit("<shift>");
    let c = tok_c(ctrl);
    let a = tok_a(alt);
    let sh = tok_sh(shift);
    let su = tok_su(sup);
    let l = c + a + sh + su + k;
    if ctrl {
        lemma_present(seq![], "<control>"@, a + sh + su + k);
        assert(seq![] + "<control>"@ + (a + sh + su + k) =~= l);
    } else {
        lemma_tokens_safe(ctrl, alt, shift, sup, k, 1, 'c');
        lemma_absent(l, "<control>"@, 1);
        lemma_absent(l, "<ctrl>"@, 1);
    }
    if alt {
        lemma_present(c, "<alt>"@, sh + su + k);
        assert(c + "<alt>"@ + (sh + su + k) =~= l);
    } else {
        lemma_tokens_safe(ctrl, alt, shift, sup, k, 1, 'a');
        lemma_absent(l, "<alt>"@, 1);
        lemma_tokens_safe(ctrl, alt, shift, sup, k, 1, 'm');
        lemma_absent(l, "<mod1>"@, 1);
    }
    if shift {
        lemma_present(c + a, "<shift>"@, su + k);
        assert(c + a + "<shift>"@ + (su + k) =~= l);
    } else {
        lemma_tokens_safe(ctrl, alt, shift, sup, k, 2, 'h');
        lemma_absent(l, "<shift>"@, 2);
    }
}

/// A key combination captured in the shortcut dialog is matched by the
/// same key press: parsing the captured accelerator gives back the pressed
/// Ctrl, Alt and Shift and the key. This holds for key names of ASCII
/// characters other than `<`, `>` and whitespace (as the names of keys
/// are), on which `str::to_lowercase` is ASCII lowercasing.
pub proof fn law_captured_accel_matches(ctrl: bool, alt: bool, shift: bool, sup: bool, key: Seq<char>)
    requires
        key_name_ok(key),
        unicode_lowercase(accel_text(ctrl, alt, shift, sup, key)) == ascii_lower(
            accel_text(ctrl, alt, shift, sup, key),
        ),
        unicode_lowercase(key) == ascii_lower(key),
    ensures
        accel_triggered(accel_text(ctrl, alt, shift, sup, key), ctrl, alt, shift, key),
{
    let k = ascii_lower(key);
    let p = tok_c(ctrl) + tok_a(alt) + tok_sh(shift) + tok_su(sup);
    lemma_lowered_text(ctrl, alt, shift, sup, key);
    lemma_lowered_key(key);
    lemma_tokens_end(ctrl, alt, shift, sup);
    lemma_key_read_back(p, k);
    lemma_flags_read_back(ctrl, alt, shift, sup, k);
    assert(p + k == tok_c(ctrl) + tok_a(alt) + tok_sh(shift) + tok_su(sup) + k);
}

} // verus!
