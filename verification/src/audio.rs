//! Audio backends and the parsing of the source listings of `wpctl` and
//! `pactl`.

use vstd::prelude::*;
use crate::text::{
    char_is_numeric, chars_eq, chars_of, find_char, is_ascii_char, lemma_rfind_before_range,
    lines, lines_chars, numeric_char, rfind, rfind_char, find, slice_range, split_chars, split_on,
    starts_with, starts_with_chars, string_of, strip_leading, strip_leading_chars, trim,
    trim_chars, trim_end, trim_end_chars, trim_start, trim_start_chars,
    lemma_find_from_range, lemma_split_len_pos,
};

verus! {

/// The running audio server.
#[derive(Debug, Clone, Copy, PartialEq, Eq, Structural)]
pub enum AudioBackend {
    Pipewire,
    Pulseaudio,
    NoBackend,
}

impl AudioBackend {
    pub open spec fn label_text(self) -> Seq<char> {
        match self {
            AudioBackend::Pipewire => "PipeWire"@,
            AudioBackend::Pulseaudio => "PulseAudio"@,
            AudioBackend::NoBackend => "Ninguno"@,
        }
    }

    /// Value of wf-recorder's `--audio-backend` flag.
    pub open spec fn arg_text(self) -> Option<Seq<char>> {
        match self {
            AudioBackend::Pipewire => Some("pipewire"@),
            AudioBackend::Pulseaudio => Some("pulse"@),
            AudioBackend::NoBackend => None,
        }
    }

    pub fn label(self) -> (r: &'static str)
        ensures
            r@ == self.label_text(),
    {
        match self {
            AudioBackend::Pipewire => "PipeWire",
            AudioBackend::Pulseaudio => "PulseAudio",
            AudioBackend::NoBackend => "Ninguno",
        }
    }

    /// wf-recorder `--audio-backend` value, none when no server runs.
    pub fn wf_recorder_arg(self) -> (r: Option<&'static str>)
        ensures
            match r {
                Some(a) => self.arg_text() == Some(a@),
                None => self.arg_text() is None,
            },
    {
        match self {
            AudioBackend::Pipewire => Some("pipewire"),
            AudioBackend::Pulseaudio => Some("pulse"),
            AudioBackend::NoBackend => None,
        }
    }
}

/// The backend in use: PipeWire when its socket exists or one of its
/// daemons runs, else PulseAudio when its daemon runs, else none.
pub open spec fn backend_from(pipewire_socket: bool, pipewire_running: bool, pulse_running: bool) -> AudioBackend {
    if pipewire_socket || pipewire_running {
        AudioBackend::Pipewire
    } else if pulse_running {
        AudioBackend::Pulseaudio
    } else {
        AudioBackend::NoBackend
    }
}

/// Decide the audio backend from what was found on the system: the
/// PipeWire socket in the runtime directory, a running `pipewire` or
/// `pipewire-pulse`, a running `pulseaudio`.
pub fn choose_backend(pipewire_socket: bool, pipewire_running: bool, pulse_running: bool) -> (r: AudioBackend)
    ensures
        r == backend_from(pipewire_socket, pipewire_running, pulse_running),
{
    if pipewire_socket || pipewire_running {
        AudioBackend::Pipewire
    } else if pulse_running {
        AudioBackend::Pulseaudio
    } else {
        AudioBackend::NoBackend
    }
}

// ---------------------------------------------------------------------------
// Process table
// ---------------------------------------------------------------------------

pub open spec fn is_ascii_digit(c: char) -> bool {
    '0' <= c && c <= '9'
}

/// A `/proc` entry belongs to a process when its name is all ASCII digits.
pub open spec fn all_digits(s: Seq<char>) -> bool {
    forall|i: int| 0 <= i < s.len() ==> is_ascii_digit(#[trigger] s[i])
}

/// Whether a `/proc` entry name is a process id (all ASCII digits).
pub fn is_pid_entry(name: &str) -> (r: bool)
    ensures
        r == all_digits(name@),
{
    let v = chars_of(name);
    let mut i: usize = 0;
    while i < v.len()
        invariant
            v@ == name@,
            i <= v@.len(),
            forall|j: int| 0 <= j < i ==> is_ascii_digit(#[trigger] v@[j]),
        decreases v.len() - i,
    {
        if !('0' <= v[i] && v[i] <= '9') {
            assert(!is_ascii_digit(name@[i as int]));
            return false;
        }
        i = i + 1;
    }
    true
}

/// What `std::str::from_utf8` makes of some bytes: the text when they are
/// valid UTF-8.
pub uninterp spec fn utf8_text(b: Seq<u8>) -> Option<Seq<char>>;

/// All bytes are ASCII (below 128).
pub open spec fn ascii_bytes(b: Seq<u8>) -> bool {
    forall|j: int| 0 <= j < b.len() ==> #[trigger] b[j] < 128
}

/// ASCII bytes read as characters, one per byte.
pub open spec fn ascii_chars(b: Seq<u8>) -> Seq<char> {
    b.map_values(|c: u8| c as char)
}

/// `std::str::from_utf8`. Its result is named by `utf8_text`; of UTF-8
/// decoding only this is stated: ASCII bytes, which UTF-8 encodes as
/// themselves, decode to one character each.
#[verifier::external_body]
fn utf8_decode(b: &[u8]) -> (r: Option<String>)
    ensures
        match r {
            Some(t) => utf8_text(b@) == Some(t@),
            None => utf8_text(b@) is None,
        },
        ascii_bytes(b@) ==> r is Some && r->0@ == ascii_chars(b@),
{
    std::str::from_utf8(b).ok().map(|t| t.to_string())
}

/// The bytes before the first NUL (all of them when there is none).
pub open spec fn first_field(b: Seq<u8>) -> Seq<u8>
    decreases b.len(),
{
    if b.len() == 0 {
        b
    } else if b[0] == 0 {
        seq![]
    } else {
        seq![b[0]] + first_field(b.drop_first())
    }
}

/// A process's command line names `name` when its first argument is valid
/// UTF-8 and the part after its last `/` is `name`.
pub open spec fn cmdline_names(cmdline: Seq<u8>, name: Seq<char>) -> bool {
    match utf8_text(first_field(cmdline)) {
        Some(arg0) => split_on(arg0, '/').last() == name,
        None => false,
    }
}

proof fn lemma_first_field_prefix(b: Seq<u8>, i: int)
    requires
        0 <= i <= b.len(),
        forall|j: int| 0 <= j < i ==> b[j] != 0,
        i == b.len() || b[i] == 0,
    ensures
        first_field(b) == b.take(i),
    decreases i,
{
    if i > 0 {
        lemma_first_field_prefix(b.drop_first(), i - 1);
        assert(b.take(i) =~= seq![b[0]] + b.drop_first().take(i - 1));
    } else {
        assert(b.take(0) =~= seq![]);
    }
}

/// Whether the `/proc/<pid>/cmdline` contents `cmdline` belong to a
/// process called `name`.
pub fn cmdline_names_process(cmdline: &[u8], name: &str) -> (r: bool)
    ensures
        r == cmdline_names(cmdline@, name@),
        ascii_bytes(first_field(cmdline@)) ==> r == (split_on(ascii_chars(first_field(cmdline@)), '/').last()
            == name@),
{
    let mut i: usize = 0;
    while i < cmdline.len() && cmdline[i] != 0
        invariant
            i <= cmdline@.len(),
            forall|j: int| 0 <= j < i ==> cmdline@[j] != 0,
        decreases cmdline.len() - i,
    {
        i = i + 1;
    }
    proof {
        lemma_first_field_prefix(cmdline@, i as int);
    }
    let arg0 = byte_prefix(cmdline, i);
    match utf8_decode(arg0.as_slice()) {
        Some(text) => {
            let chars = chars_of(text.as_str());
            let parts = split_chars(&chars, '/');
            proof {
                lemma_split_len_pos(chars@, '/');
            }
            let n = parts.len();
            assert(parts@.map_values(|p: Vec<char>| p@)[n - 1] == parts@[n - 1]@);
            chars_eq(&parts[n - 1], &chars_of(name))
        },
        None => false,
    }
}

/// A copy of the first `n` bytes.
fn byte_prefix(b: &[u8], n: usize) -> (r: Vec<u8>)
    requires
        n <= b@.len(),
    ensures
        r@ == b@.take(n as int),
{
    let mut r: Vec<u8> = Vec::new();
    let mut i: usize = 0;
    while i < n
        invariant
            i <= n <= b@.len(),
            r@ == b@.take(i as int),
        decreases n - i,
    {
        r.push(b[i]);
        i = i + 1;
        assert(r@ =~= b@.take(i as int));
    }
    r
}

// ---------------------------------------------------------------------------
// Sources
// ---------------------------------------------------------------------------

/// An audio source as shown in the UI.
#[derive(Debug, Clone)]
pub struct AudioSource {
    /// Native name passed to wf-recorder's `-a` flag.
    pub name: String,
    /// Human-readable description.
    pub description: String,
}

pub struct AudioSourceView {
    pub name: Seq<char>,
    pub description: Seq<char>,
}

impl View for AudioSource {
    type V = AudioSourceView;

    open spec fn view(&self) -> AudioSourceView {
        AudioSourceView { name: self.name@, description: self.description@ }
    }
}

pub open spec fn source_views(v: Seq<AudioSource>) -> Seq<AudioSourceView> {
    v.map_values(|a: AudioSource| a@)
}

/// The source described by one `wpctl status` entry such as
/// `* 42. Realtek ALC295 Analog [alsa_input.pci-...]`: after the leading
/// `*`s, whitespace and the number up to the first `.`, the text in the
/// last brackets is the name and the trimmed text before them the
/// description; without brackets the whole rest is both. Nothing when
/// there is no `.`, when a `[` has no later `]`, or when the name is
/// empty.
pub open spec fn wpctl_entry(l: Seq<char>) -> Option<AudioSourceView> {
    let l1 = trim_start(strip_leading(l, '*'));
    match find(l1, '.') {
        None => None,
        Some(d) => {
            let after = trim_start(l1.skip(d + 1));
            match rfind(after, '[') {
                Some(open) => match rfind(after, ']') {
                    None => None,
                    Some(close) => if close <= open {
                        None
                    } else {
                        let name = after.subrange(open + 1, close);
                        if name.len() == 0 {
                            None
                        } else {
                            Some(AudioSourceView { name, description: trim(after.take(open)) })
                        }
                    },
                },
                None => if after.len() == 0 {
                    None
                } else {
                    Some(AudioSourceView { name: after, description: after })
                },
            }
        },
    }
}

pub open spec fn entry_view(r: Option<AudioSource>) -> Option<AudioSourceView> {
    match r {
        Some(a) => Some(a@),
        None => None,
    }
}

/// Parse one source entry of `wpctl status`.
pub fn parse_wpctl_line(l: &str) -> (r: Option<AudioSource>)
    ensures
        entry_view(r) == wpctl_entry(l@),
{
    let v = chars_of(l);
    let stripped = strip_leading_chars(&v, '*');
    let l1 = trim_start_chars(&stripped);
    let found = find_char(&l1, '.');
    if found.is_none() {
        return None;
    }
    let d = found.unwrap();
    proof {
        crate::text::lemma_find_from_range(l1@, '.', 0);
    }
    let n1 = l1.len();
    assert(d < n1);
    let rest = slice_range(&l1, d + 1, n1);
    assert(rest@ =~= l1@.skip(d + 1));
    let after = trim_start_chars(&rest);
    match rfind_char(&after, '[') {
        Some(open) => {
            proof {
                lemma_rfind_before_range(after@, '[', after@.len() as int);
            }
            let close = match rfind_char(&after, ']') {
                Some(c) => c,
                None => return None,
            };
            proof {
                lemma_rfind_before_range(after@, ']', after@.len() as int);
            }
            if close <= open {
                return None;
            }
            let name = slice_range(&after, open + 1, close);
            let before = slice_range(&after, 0, open);
            assert(before@ =~= after@.take(open as int));
            let desc = trim_chars(&before);
            if name.len() == 0 {
                None
            } else {
                Some(AudioSource { name: string_of(&name), description: string_of(&desc) })
            }
        },
        None => {
            if after.len() == 0 {
                None
            } else {
                Some(AudioSource { name: string_of(&after), description: string_of(&after) })
            }
        },
    }
}

/// Whether a trimmed line of the sources block is an entry: it starts
/// with `*` or a numeric character.
pub open spec fn looks_like_entry(l: Seq<char>) -> bool {
    l.len() > 0 && (l[0] == '*' || numeric_char(l[0]))
}

/// The sources listed by `wpctl status`, scanning `ls` with `in_sources`
/// telling whether the `Sources:` block is open: a line whose trimmed end
/// starts with `Sources:` opens it, an unindented non-empty line closes
/// it, and inside it every line that looks like an entry contributes the
/// source it describes.
pub open spec fn scan_wpctl(ls: Seq<Seq<char>>, in_sources: bool) -> Seq<AudioSourceView>
    decreases ls.len(),
{
    if ls.len() == 0 {
        seq![]
    } else {
        let line = ls[0];
        let rest = ls.drop_first();
        if starts_with(trim_end(line), "Sources:"@) {
            scan_wpctl(rest, true)
        } else if in_sources {
            if line.len() > 0 && !starts_with(line, seq![' ']) {
                scan_wpctl(rest, false)
            } else {
                let l = trim_start(line);
                let here = if looks_like_entry(l) {
                    match wpctl_entry(l) {
                        Some(src) => seq![src],
                        None => seq![],
                    }
                } else {
                    seq![]
                };
                here + scan_wpctl(rest, true)
            }
        } else {
            scan_wpctl(rest, false)
        }
    }
}

/// The sources in the output of `wpctl status`.
pub fn parse_wpctl_status(text: &str) -> (r: Vec<AudioSource>)
    ensures
        source_views(r@) == scan_wpctl(lines(text@), false),
{
    let chars = chars_of(text);
    let ls = lines_chars(&chars);
    let ghost lv = lines(text@);
    let mut out: Vec<AudioSource> = Vec::new();
    let mut in_sources = false;
    let mut i: usize = 0;
    let sources_tag = chars_of("Sources:");
    let space: Vec<char> = vec![' '];
    assert(lv.skip(0) =~= lv);
    while i < ls.len()
        invariant
            i <= ls@.len(),
            ls@.map_values(|v: Vec<char>| v@) == lv,
            sources_tag@ == "Sources:"@,
            space@ == seq![' '],
            source_views(out@) + scan_wpctl(lv.skip(i as int), in_sources) == scan_wpctl(lv, false),
        decreases ls.len() - i,
    {
        let line = &ls[i];
        assert(line@ == lv[i as int]);
        assert(lv.skip(i as int).drop_first() =~= lv.skip(i + 1));
        assert(lv.skip(i as int)[0] == lv[i as int]);
        let trimmed = trim_end_chars(line);
        if starts_with_chars(&trimmed, &sources_tag) {
            in_sources = true;
        } else if in_sources {
            if line.len() > 0 && !starts_with_chars(line, &space) {
                in_sources = false;
            } else {
                let l = trim_start_chars(line);
                let entry = l.len() > 0 && (l[0] == '*' || char_is_numeric(l[0]));
                if entry {
                    let text_l = string_of(&l);
                    match parse_wpctl_line(text_l.as_str()) {
                        Some(src) => {
                            let ghost before = source_views(out@);
                            out.push(src);
                            assert(source_views(out@) =~= before.push(src@));
                            assert(before.push(src@) + scan_wpctl(lv.skip(i + 1), true) =~= before
                                + (seq![src@] + scan_wpctl(lv.skip(i + 1), true)));
                        },
                        None => {
                            assert(seq![] + scan_wpctl(lv.skip(i + 1), true) =~= scan_wpctl(
                                lv.skip(i + 1),
                                true,
                            ));
                        },
                    }
                } else {
                    assert(seq![] + scan_wpctl(lv.skip(i + 1), true) =~= scan_wpctl(
                        lv.skip(i + 1),
                        true,
                    ));
                }
            }
        }
        i = i + 1;
    }
    assert(lv.skip(ls@.len() as int) =~= seq![]);
    assert(source_views(out@) + seq![] =~= source_views(out@));
    out
}

/// The source of one `pactl list short sources` line: its second
/// tab-separated field, used as name and description.
pub open spec fn pactl_entry(l: Seq<char>) -> Option<AudioSourceView> {
    let p = split_on(l, '\t');
    if p.len() >= 2 {
        Some(AudioSourceView { name: p[1], description: p[1] })
    } else {
        None
    }
}

pub open spec fn scan_pactl(ls: Seq<Seq<char>>) -> Seq<AudioSourceView>
    decreases ls.len(),
{
    if ls.len() == 0 {
        seq![]
    } else {
        (match pactl_entry(ls[0]) {
            Some(src) => seq![src],
            None => seq![],
        }) + scan_pactl(ls.drop_first())
    }
}

/// The sources in the output of `pactl list short sources`.
pub fn parse_pactl_short(text: &str) -> (r: Vec<AudioSource>)
    ensures
        source_views(r@) == scan_pactl(lines(text@)),
{
    let chars = chars_of(text);
    let ls = lines_chars(&chars);
    let ghost lv = lines(text@);
    let mut out: Vec<AudioSource> = Vec::new();
    let mut i: usize = 0;
    assert(lv.skip(0) =~= lv);
    while i < ls.len()
        invariant
            i <= ls@.len(),
            ls@.map_values(|v: Vec<char>| v@) == lv,
            source_views(out@) + scan_pactl(lv.skip(i as int)) == scan_pactl(lv),
        decreases ls.len() - i,
    {
        let line = &ls[i];
        assert(line@ == lv[i as int]);
        assert(lv.skip(i as int).drop_first() =~= lv.skip(i + 1));
        assert(lv.skip(i as int)[0] == lv[i as int]);
        let parts = split_chars(line, '\t');
        if parts.len() >= 2 {
            assert(parts@.map_values(|p: Vec<char>| p@)[1] == parts@[1]@);
            let name = string_of(&parts[1]);
            let src = AudioSource { name: string_of(&parts[1]), description: name };
            let ghost before = source_views(out@);
            out.push(src);
            assert(source_views(out@) =~= before.push(src@));
            assert(before.push(src@) + scan_pactl(lv.skip(i + 1)) =~= before + (seq![src@]
                + scan_pactl(lv.skip(i + 1))));
        } else {
            assert(seq![] + scan_pactl(lv.skip(i + 1)) =~= scan_pactl(lv.skip(i + 1)));
        }
        i = i + 1;
    }
    assert(lv.skip(ls@.len() as int) =~= seq![]);
    assert(source_views(out@) + seq![] =~= source_views(out@));
    out
}

pub open spec fn text_view(t: Option<String>) -> Option<Seq<char>> {
    match t {
        Some(s) => Some(s@),
        None => None,
    }
}

/// Sources from the `pactl` output, none when `pactl` failed.
pub open spec fn pactl_sources(pactl: Option<Seq<char>>) -> Seq<AudioSourceView> {
    match pactl {
        Some(t) => scan_pactl(lines(t)),
        None => seq![],
    }
}

/// The sources offered for `backend`: for PipeWire those `wpctl` lists,
/// falling back to `pactl` when `wpctl` failed or listed none; for
/// PulseAudio those `pactl` lists; none without a backend. `wpctl` and
/// `pactl` are the outputs of the successful tool runs.
pub open spec fn sources_for(
    backend: AudioBackend,
    wpctl: Option<Seq<char>>,
    pactl: Option<Seq<char>>,
) -> Seq<AudioSourceView> {
    match backend {
        AudioBackend::Pipewire => match wpctl {
            None => pactl_sources(pactl),
            Some(t) => {
                let s = scan_wpctl(lines(t), false);
                if s.len() == 0 {
                    pactl_sources(pactl)
                } else {
                    s
                }
            },
        },
        AudioBackend::Pulseaudio => pactl_sources(pactl),
        AudioBackend::NoBackend => seq![],
    }
}

/// List audio sources for `backend` from the outputs of `wpctl status`
/// and `pactl list short sources` (`None` where the tool failed).
pub fn list_sources(backend: AudioBackend, wpctl: Option<String>, pactl: Option<String>) -> (r: Vec<
    AudioSource,
>)
    ensures
        source_views(r@) == sources_for(backend, text_view(wpctl), text_view(pactl)),
{
    match backend {
        AudioBackend::Pipewire => match wpctl {
            None => pactl_list(pactl),
            Some(t) => {
                let s = parse_wpctl_status(t.as_str());
                if s.len() == 0 {
                    pactl_list(pactl)
                } else {
                    s
                }
            },
        },
        AudioBackend::Pulseaudio => pactl_list(pactl),
        AudioBackend::NoBackend => {
            let r: Vec<AudioSource> = Vec::new();
            assert(source_views(r@) =~= seq![]);
            r
        },
    }
}

fn pactl_list(pactl: Option<String>) -> (r: Vec<AudioSource>)
    ensures
        source_views(r@) == pactl_sources(text_view(pactl)),
{
    match pactl {
        Some(t) => parse_pactl_short(t.as_str()),
        None => {
            let r: Vec<AudioSource> = Vec::new();
            assert(source_views(r@) =~= seq![]);
            r
        },
    }
}

/// One line of `pactl list short sources` gives a source exactly when it
/// has at least two tab-separated fields, whatever they hold; the source's
/// name and description are then the second field.
pub proof fn law_pactl_line_gives_source(l: Seq<char>)
    ensures
        pactl_entry(l) is Some <==> split_on(l, '\t').len() >= 2,
        pactl_entry(l) is Some ==> pactl_entry(l)->0.name == split_on(l, '\t')[1]
            && pactl_entry(l)->0.description == split_on(l, '\t')[1],
{
}

/// Scanning pactl lines: every line with two fields gives a source named
/// by its second field, and there are no more sources than lines.
proof fn lemma_scan_pactl_covers(ls: Seq<Seq<char>>)
    ensures
        scan_pactl(ls).len() <= ls.len(),
        forall|i: int|
            #![trigger ls[i]]
            0 <= i < ls.len() && split_on(ls[i], '\t').len() >= 2 ==> exists|j: int|
                0 <= j < scan_pactl(ls).len() && (#[trigger] scan_pactl(ls)[j]).name == split_on(
                    ls[i],
                    '\t',
                )[1] && scan_pactl(ls)[j].description == split_on(ls[i], '\t')[1],
    decreases ls.len(),
{
    if ls.len() > 0 {
        let t = ls.drop_first();
        lemma_scan_pactl_covers(t);
        let head: Seq<AudioSourceView> = match pactl_entry(ls[0]) {
            Some(src) => seq![src],
            None => seq![],
        };
        let sc = scan_pactl(ls);
        let st = scan_pactl(t);
        assert(sc == head + st);
        assert forall|i: int| #![trigger ls[i]] 0 <= i < ls.len() && split_on(ls[i], '\t').len() >= 2 implies exists|
            j: int,
        | 0 <= j < sc.len() && (#[trigger] sc[j]).name == split_on(ls[i], '\t')[1]
                && sc[j].description == split_on(ls[i], '\t')[1] by {
            if i == 0 {
                assert(sc[0] == head[0]);
            } else {
                assert(ls[i] == t[i - 1]);
                let j2 = choose|j: int|
                    0 <= j < st.len() && (#[trigger] st[j]).name == split_on(t[i - 1], '\t')[1]
                        && st[j].description == split_on(t[i - 1], '\t')[1];
                assert(sc[j2 + head.len()] == st[j2]);
            }
        }
    }
}

/// The line `l` of a pactl listing has at least two tab-separated fields,
/// the second being `name`.
pub open spec fn pactl_line_names(l: Seq<char>, name: Seq<char>) -> bool {
    split_on(l, '\t').len() >= 2 && split_on(l, '\t')[1] == name
}

/// Scanning pactl lines: every source comes from a line with two fields
/// and is named by its second field.
proof fn lemma_scan_pactl_sound(ls: Seq<Seq<char>>)
    ensures
        forall|j: int|
            #![trigger scan_pactl(ls)[j]]
            0 <= j < scan_pactl(ls).len() ==> exists|i: int|
                0 <= i < ls.len() && pactl_line_names(#[trigger] ls[i], scan_pactl(ls)[j].name),
    decreases ls.len(),
{
    if ls.len() > 0 {
        let t = ls.drop_first();
        lemma_scan_pactl_sound(t);
        let head: Seq<AudioSourceView> = match pactl_entry(ls[0]) {
            Some(src) => seq![src],
            None => seq![],
        };
        let sc = scan_pactl(ls);
        let st = scan_pactl(t);
        assert(sc == head + st);
        assert forall|j: int| #![trigger scan_pactl(ls)[j]] 0 <= j < scan_pactl(ls).len() implies exists|i: int|
            0 <= i < ls.len() && pactl_line_names(#[trigger] ls[i], scan_pactl(ls)[j].name) by {
            if j < head.len() {
                assert(pactl_entry(ls[0]) is Some);
                assert(sc[j] == head[0]);
                assert(split_on(ls[0], '\t').len() >= 2);
                assert(pactl_line_names(ls[0], sc[j].name));
            } else {
                let j2 = j - head.len();
                assert(sc[j] == st[j2]);
                assert(0 <= j2 < st.len());
                let i2 = choose|i: int| 0 <= i < t.len() && pactl_line_names(#[trigger] t[i], st[j2].name);
                assert(ls[i2 + 1] == t[i2]);
                assert(pactl_line_names(ls[i2 + 1], sc[j].name));
            }
        }
    } else {
        assert(scan_pactl(ls).len() == 0);
    }
}

/// With PulseAudio the sources offered are those of `pactl list short
/// sources`: one for every line with at least two tab-separated fields,
/// named by the second field (monitor sources included), and nothing else.
pub proof fn law_pulseaudio_lists_every_source(wpctl: Option<Seq<char>>, t: Seq<char>)
    ensures
        ({
            let ls = lines(t);
            let r = sources_for(AudioBackend::Pulseaudio, wpctl, Some(t));
            &&& r.len() <= ls.len()
            &&& forall|i: int|
                #![trigger ls[i]]
                0 <= i < ls.len() && split_on(ls[i], '\t').len() >= 2 ==> exists|j: int|
                    0 <= j < r.len() && (#[trigger] r[j]).name == split_on(ls[i], '\t')[1]
                        && r[j].description == split_on(ls[i], '\t')[1]
            &&& forall|j: int|
                #![trigger r[j]]
                0 <= j < r.len() ==> exists|i: int|
                    0 <= i < ls.len() && pactl_line_names(#[trigger] ls[i], r[j].name)
        }),
{
    let ls = lines(t);
    let r = sources_for(AudioBackend::Pulseaudio, wpctl, Some(t));
    assert(r == scan_pactl(ls));
    lemma_scan_pactl_covers(ls);
    lemma_scan_pactl_sound(ls);
}

} // verus!
