//! Surface selection and the text the Strophe surfaces show.

use vstd::prelude::*;

use crate::text::{decimal_text, decimal_value, lemma_decimal_text_value, push_decimal, push_str};

verus! {

/// Which top-level surface shows below the transport bar.
#[derive(Copy, Clone, PartialEq, Eq, Debug, Structural)]
pub enum Surface {
    /// The track column: profile-aware strips.
    Tracks,
    /// The Deeler combination grid (tracks by variation slots).
    Combination,
    /// Session settings (profile, tempo, and so on).
    Settings,
}

/// The tab label of each surface.
pub open spec fn surface_label(s: Surface) -> Seq<char> {
    match s {
        Surface::Tracks => "Tracks"@,
        Surface::Combination => "Combination"@,
        Surface::Settings => "Settings"@,
    }
}

impl Surface {
    /// The tab label of this surface.
    pub fn label(self) -> (r: &'static str)
        ensures
            r@ == surface_label(self),
            self == Surface::Tracks ==> r@ == "Tracks"@,
            self == Surface::Combination ==> r@ == "Combination"@,
            self == Surface::Settings ==> r@ == "Settings"@,
    {
        match self {
            Surface::Tracks => "Tracks",
            Surface::Combination => "Combination",
            Surface::Settings => "Settings",
        }
    }
}

impl Default for Surface {
    /// The app opens on the track column.
    fn default() -> (r: Self)
        ensures
            r == Surface::Tracks,
    {
        Surface::Tracks
    }
}

/// Whether layer slot `index` is the active variation. The active slot is
/// a 16-bit index, compared with the slot index taken to 16 bits.
pub open spec fn slot_is_active(active: Option<u16>, index: usize) -> bool {
    active == Some(index as u16)
}

/// Whether layer slot `index` is the active variation.
pub fn is_active_slot(active: Option<u16>, index: usize) -> (r: bool)
    ensures
        r == slot_is_active(active, index),
        r <==> (active is Some && active->0 as int == index as int % 65536),
{
    let slot: u16 = index as u16;
    proof {
        lemma_slot_truncation(index);
    }
    match active {
        Some(a) => a == slot,
        None => false,
    }
}

/// The one-based variation number of slot `index`.
pub open spec fn variation_number(index: usize) -> Seq<char> {
    decimal_text((index + 1) as nat)
}

/// A combination-grid cell: `[vN]` for the active variation, ` vN `
/// otherwise.
pub open spec fn combination_cell_text(index: usize, active: bool) -> Seq<char> {
    if active {
        "[v"@ + variation_number(index) + "]"@
    } else {
        " v"@ + variation_number(index) + " "@
    }
}

/// The label of combination-grid cell `index`.
pub fn combination_cell_label(index: usize, active: bool) -> (r: String)
    requires
        index < usize::MAX,
    ensures
        r@ == combination_cell_text(index, active),
        active ==> r@ == "[v"@ + decimal_text((index + 1) as nat) + "]"@,
        !active ==> r@ == " v"@ + decimal_text((index + 1) as nat) + " "@,
{
    let n: u64 = index as u64 + 1;
    let mut r = String::new();
    if active {
        push_str(&mut r, "[v");
        push_decimal(&mut r, n);
        push_str(&mut r, "]");
    } else {
        push_str(&mut r, " v");
        push_decimal(&mut r, n);
        push_str(&mut r, " ");
    }
    r
}

/// The cells of one combination-grid row: the track name, one cell per
/// layer with the active variation bracketed, and `(no layers)` for a track
/// without layers.
pub fn combination_row(track_name: &String, layer_count: usize, active: Option<u16>) -> (cells: Vec<
    String,
>)
    requires
        layer_count < usize::MAX,
    ensures
        cells@.len() == if layer_count == 0 {
            2
        } else {
            layer_count + 1
        },
        cells@[0]@ == track_name@,
        forall|i: int|
            0 <= i < layer_count ==> #[trigger] cells@[i + 1]@ == combination_cell_text(
                i as usize,
                slot_is_active(active, i as usize),
            ),
        forall|i: int|
            0 <= i < layer_count ==> #[trigger] cells@[i + 1]@ == if active is Some && active->0 as int
                == i % 65536 {
                "[v"@ + decimal_text((i + 1) as nat) + "]"@
            } else {
                " v"@ + decimal_text((i + 1) as nat) + " "@
            },
        layer_count == 0 ==> cells@[1]@ == "(no layers)"@,
{
    let mut cells: Vec<String> = Vec::new();
    cells.push(track_name.clone());
    let mut i: usize = 0;
    while i < layer_count
        invariant
            i <= layer_count < usize::MAX,
            cells@.len() == i + 1,
            cells@[0]@ == track_name@,
            forall|k: int|
                0 <= k < i ==> #[trigger] cells@[k + 1]@ == combination_cell_text(
                    k as usize,
                    slot_is_active(active, k as usize),
                ),
            forall|k: int|
                0 <= k < i ==> #[trigger] cells@[k + 1]@ == if active is Some && active->0 as int
                    == k % 65536 {
                    "[v"@ + decimal_text((k + 1) as nat) + "]"@
                } else {
                    " v"@ + decimal_text((k + 1) as nat) + " "@
                },
        decreases layer_count - i,
    {
        let on = is_active_slot(active, i);
        cells.push(combination_cell_label(i, on));
        i = i + 1;
    }
    if layer_count == 0 {
        cells.push(String::from_str("(no layers)"));
    }
    cells
}

/// The arm button of a track strip: a filled dot when armed, a hollow one
/// otherwise, two spaces, the track name.
pub open spec fn arm_text(armed: bool, name: Seq<char>) -> Seq<char> {
    (if armed {
        "\u{25cf}"@
    } else {
        "\u{25cb}"@
    }) + "  "@ + name
}

/// The arm button label of a track strip.
pub fn arm_label(armed: bool, name: &String) -> (r: String)
    ensures
        r@ == arm_text(armed, name@),
        armed ==> r@ == "\u{25cf}"@ + "  "@ + name@,
        !armed ==> r@ == "\u{25cb}"@ + "  "@ + name@,
{
    let mut r = String::new();
    if armed {
        push_str(&mut r, "\u{25cf}");
    } else {
        push_str(&mut r, "\u{25cb}");
    }
    push_str(&mut r, "  ");
    push_str(&mut r, name.as_str());
    r
}

/// A variation slot of a Deeler strip: `vN`, marked with a dot when active.
pub open spec fn selectone_slot_text(index: usize, active: bool) -> Seq<char> {
    (if active {
        "\u{25cf} "@
    } else {
        ""@
    }) + "v"@ + variation_number(index)
}

/// The label of variation slot `index` of a Deeler strip.
pub fn selectone_slot_label(index: usize, active: bool) -> (r: String)
    requires
        index < usize::MAX,
    ensures
        r@ == selectone_slot_text(index, active),
        active ==> r@ == "\u{25cf} "@ + "v"@ + decimal_text((index + 1) as nat),
        !active ==> r@ == "v"@ + decimal_text((index + 1) as nat),
{
    let n: u64 = index as u64 + 1;
    let mut r = String::new();
    if active {
        push_str(&mut r, "\u{25cf} ");
    }
    push_str(&mut r, "v");
    proof {
        reveal_strlit("");
        assert(""@ + "v"@ =~= "v"@);
    }
    push_decimal(&mut r, n);
    r
}

/// The expand toggle of a looper strip: collapse when expanded, otherwise
/// the layer count.
pub open spec fn expand_text(expanded: bool, layer_count: u64) -> Seq<char> {
    if expanded {
        "\u{25be} layers"@
    } else {
        "\u{25b8} "@ + decimal_text(layer_count as nat) + " layer(s)"@
    }
}

/// The expand toggle label of a looper strip.
pub fn expand_label(expanded: bool, layer_count: u64) -> (r: String)
    ensures
        r@ == expand_text(expanded, layer_count),
        expanded ==> r@ == "\u{25be} layers"@,
        !expanded ==> r@ == "\u{25b8} "@ + decimal_text(layer_count as nat) + " layer(s)"@,
{
    let mut r = String::new();
    if expanded {
        push_str(&mut r, "\u{25be} layers");
    } else {
        push_str(&mut r, "\u{25b8} ");
        push_decimal(&mut r, layer_count);
        push_str(&mut r, " layer(s)");
    }
    r
}

/// The row title of layer `index` in an expanded looper strip: `L` and the
/// zero-based index.
pub open spec fn layer_title_text(index: u64) -> Seq<char> {
    "L"@ + decimal_text(index as nat)
}

/// The row title of layer `index`.
pub fn layer_title(index: u64) -> (r: String)
    ensures
        r@ == layer_title_text(index),
        r@ == "L"@ + decimal_text(index as nat),
{
    let mut r = String::new();
    push_str(&mut r, "L");
    push_decimal(&mut r, index);
    r
}

/// The mute toggle of a layer row.
pub fn mute_label(muted: bool) -> (r: &'static str)
    ensures
        r@ == (if muted {
            "muted"@
        } else {
            "on"@
        }),
{
    if muted {
        "muted"
    } else {
        "on"
    }
}

/// What the settings surface reads of the session.
pub struct SessionSummary {
    /// Whether the session runs the Deeler (select-one) profile.
    pub deeler: bool,
    pub track_count: u64,
    pub bars_per_phrase: u64,
    /// Tempo, whole beats per minute.
    pub bpm: u32,
    pub beats_per_bar: u64,
    pub beat_unit: u64,
    pub master_clock: bool,
    pub count_in_bars: u64,
}

/// The lines of the settings surface.
pub struct SettingsText {
    pub profile: String,
    pub session: String,
    pub clock: String,
    pub clock_toggle: &'static str,
    pub count_in: String,
    pub tempo: String,
    pub beats: String,
}

/// The profile line.
pub open spec fn profile_text(deeler: bool) -> Seq<char> {
    "Profile: "@ + if deeler {
        "Deeler (select-one variations)"@
    } else {
        "Looper (summed overdub)"@
    }
}

/// The session summary line: tracks, bars per phrase, tempo, meter.
pub open spec fn session_text(s: SessionSummary) -> Seq<char> {
    decimal_text(s.track_count as nat) + " tracks \u{b7} "@ + decimal_text(
        s.bars_per_phrase as nat,
    ) + " bars/phrase \u{b7} "@ + decimal_text(s.bpm as nat) + " BPM \u{b7} "@ + decimal_text(
        s.beats_per_bar as nat,
    ) + "/"@ + decimal_text(s.beat_unit as nat)
}

/// The master clock line.
pub open spec fn clock_text(on: bool) -> Seq<char> {
    "Master clock: "@ + if on {
        "on \u{2014} click audible, count-in active"@
    } else {
        "off \u{2014} click muted, no count-in"@
    }
}

/// The text of every settings line for a session.
pub fn settings_text(s: &SessionSummary) -> (t: SettingsText)
    ensures
        t.profile@ == profile_text(s.deeler),
        t.session@ == session_text(*s),
        t.clock@ == clock_text(s.master_clock),
        s.deeler ==> t.profile@ == "Profile: "@ + "Deeler (select-one variations)"@,
        !s.deeler ==> t.profile@ == "Profile: "@ + "Looper (summed overdub)"@,
        t.session@ == decimal_text(s.track_count as nat) + " tracks \u{b7} "@ + decimal_text(
            s.bars_per_phrase as nat,
        ) + " bars/phrase \u{b7} "@ + decimal_text(s.bpm as nat) + " BPM \u{b7} "@ + decimal_text(
            s.beats_per_bar as nat,
        ) + "/"@ + decimal_text(s.beat_unit as nat),
        s.master_clock ==> t.clock@ == "Master clock: "@ + "on \u{2014} click audible, count-in active"@,
        !s.master_clock ==> t.clock@ == "Master clock: "@ + "off \u{2014} click muted, no count-in"@,
        t.clock_toggle@ == (if s.master_clock {
            "Turn off"@
        } else {
            "Turn on"@
        }),
        t.count_in@ == "Count-in: "@ + decimal_text(s.count_in_bars as nat) + " bar(s)"@,
        t.tempo@ == "Tempo: "@ + decimal_text(s.bpm as nat) + " BPM"@,
        t.beats@ == "Beats/bar: "@ + decimal_text(s.beats_per_bar as nat),
{
    let mut profile = String::new();
    push_str(&mut profile, "Profile: ");
    if s.deeler {
        push_str(&mut profile, "Deeler (select-one variations)");
    } else {
        push_str(&mut profile, "Looper (summed overdub)");
    }
    let mut session = String::new();
    push_decimal(&mut session, s.track_count);
    push_str(&mut session, " tracks \u{b7} ");
    push_decimal(&mut session, s.bars_per_phrase);
    push_str(&mut session, " bars/phrase \u{b7} ");
    push_decimal(&mut session, s.bpm as u64);
    push_str(&mut session, " BPM \u{b7} ");
    push_decimal(&mut session, s.beats_per_bar);
    push_str(&mut session, "/");
    push_decimal(&mut session, s.beat_unit);
    let mut clock = String::new();
    push_str(&mut clock, "Master clock: ");
    if s.master_clock {
        push_str(&mut clock, "on \u{2014} click audible, count-in active");
    } else {
        push_str(&mut clock, "off \u{2014} click muted, no count-in");
    }
    let clock_toggle = if s.master_clock {
        "Turn off"
    } else {
        "Turn on"
    };
    let mut count_in = String::new();
    push_str(&mut count_in, "Count-in: ");
    push_decimal(&mut count_in, s.count_in_bars);
    push_str(&mut count_in, " bar(s)");
    let mut tempo = String::new();
    push_str(&mut tempo, "Tempo: ");
    push_decimal(&mut tempo, s.bpm as u64);
    push_str(&mut tempo, " BPM");
    let mut beats = String::new();
    push_str(&mut beats, "Beats/bar: ");
    push_decimal(&mut beats, s.beats_per_bar);
    SettingsText { profile, session, clock, clock_toggle, count_in, tempo, beats }
}

/// The collapsed expand toggle shows the layer count itself: after the
/// two-character marker comes the count's decimal rendering, which reads
/// back as the count, then ` layer(s)`.
pub proof fn lemma_expand_shows_layer_count(n: u64)
    ensures
        expand_text(false, n) == "\u{25b8} "@ + decimal_text(n as nat) + " layer(s)"@,
        expand_text(false, n).subrange(2, expand_text(false, n).len() - 9) == decimal_text(
            n as nat,
        ),
        decimal_value(expand_text(false, n).subrange(2, expand_text(false, n).len() - 9)) == n,
        expand_text(true, n) == "\u{25be} layers"@,
{
    reveal_strlit("\u{25b8} ");
    reveal_strlit(" layer(s)");
    let t = expand_text(false, n);
    assert(t.subrange(2, t.len() - 9) =~= decimal_text(n as nat));
    lemma_decimal_text_value(n as nat);
}

/// The session line opens with the track count, which reads back as the
/// count, followed by ` tracks · `; then bars per phrase, tempo and meter
/// in that order, each rendered in decimal.
pub proof fn lemma_session_line(s: SessionSummary)
    ensures
        session_text(s) == decimal_text(s.track_count as nat) + " tracks \u{b7} "@ + decimal_text(
            s.bars_per_phrase as nat,
        ) + " bars/phrase \u{b7} "@ + decimal_text(s.bpm as nat) + " BPM \u{b7} "@ + decimal_text(
            s.beats_per_bar as nat,
        ) + "/"@ + decimal_text(s.beat_unit as nat),
        session_text(s).take(decimal_text(s.track_count as nat).len() as int) == decimal_text(
            s.track_count as nat,
        ),
        decimal_value(session_text(s).take(decimal_text(s.track_count as nat).len() as int))
            == s.track_count,
        session_text(s).skip(
            session_text(s).len() - decimal_text(s.beat_unit as nat).len(),
        ) == decimal_text(s.beat_unit as nat),
{
    let t = session_text(s);
    let first = decimal_text(s.track_count as nat);
    let last = decimal_text(s.beat_unit as nat);
    assert(t.take(first.len() as int) =~= first);
    assert(t.skip(t.len() - last.len()) =~= last);
    lemma_decimal_text_value(s.track_count as nat);
}

/// A combination cell and a Deeler slot show the one-based variation
/// number, which reads back as the slot index plus one.
pub proof fn lemma_variation_number(index: usize)
    ensures
        variation_number(index) == decimal_text((index + 1) as nat),
        decimal_value(variation_number(index)) == index + 1,
        combination_cell_text(index, true) == "[v"@ + variation_number(index) + "]"@,
        combination_cell_text(index, false) == " v"@ + variation_number(index) + " "@,
        selectone_slot_text(index, true) == "\u{25cf} "@ + "v"@ + variation_number(index),
        selectone_slot_text(index, false) == "v"@ + variation_number(index),
{
    lemma_decimal_text_value((index + 1) as nat);
    reveal_strlit("");
    assert(""@ + "v"@ =~= "v"@);
}

/// Taking a slot index to 16 bits keeps it modulo 65536.
pub proof fn lemma_slot_truncation(index: usize)
    ensures
        (index as u16) as int == index as int % 65536,
{
    assert((index as u16) as int == index as int % 65536) by (bit_vector);
}

} // verus!
