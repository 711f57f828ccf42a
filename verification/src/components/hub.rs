//! The Hub screen's table: what llama.cpp actually has in its cache, one
//! row per cached model, fitted to the width the list gets.

use vstd::prelude::*;
use vstd::string::*;
use crate::app::HubRow;
use crate::text::{
    chars_of, decimal, digit_char, ellipsis, push_char, push_chars, push_decimal, push_repeat,
    repeat, string_of,
};

verus! {

/// `1023.9M` is the widest a size can render.
pub const W_SIZE: usize = 7;
/// The same, plus the shared-repo `*`.
pub const W_DISK: usize = 8;
pub const W_PRESET: usize = 20;
/// Selection caret and a space.
pub const W_MARKER: usize = 2;
pub const REF_MIN: usize = 20;
/// Wide enough for the longest reference on a real machine (73
/// characters), so a wide terminal shows it whole.
pub const REF_MAX: usize = 76;
/// The width below which the reference stops giving ground and something
/// else goes instead: a full `unsloth/…-GGUF:Q4_K_XL` reference is 39
/// characters, and shrinking past this leaves a stub of a vendor prefix.
pub const REF_COMFORT: usize = 42;

/// Which columns fit, given the width the list actually got.
///
/// Same rule as the Models table: columns are dropped in a stated order
/// rather than left to fall off the right edge, where a column that has
/// been cut off looks exactly like one with nothing to say.
#[derive(Debug, Clone, Copy, PartialEq, Eq, Structural)]
pub struct Columns {
    pub reference: usize,
    pub disk: bool,
    pub preset: bool,
}

/// How wide a row with these columns is.
pub open spec fn columns_width(c: Columns) -> int {
    W_MARKER + c.reference + 1 + W_SIZE + (if c.disk {
        W_DISK + 1
    } else {
        0int
    }) + (if c.preset {
        W_PRESET + 1
    } else {
        0int
    })
}

/// The layout `for_width` settles on: the reference gives ground down to
/// `REF_COMFORT`, then the disk column goes, then the reference gives the
/// rest, then the preset column goes; whatever is spare goes back to the
/// reference.
pub open spec fn columns_for(width: int) -> Columns {
    if width >= 116 {
        Columns { reference: REF_MAX, disk: true, preset: true }
    } else if width >= 82 {
        Columns { reference: (width - 40) as usize, disk: true, preset: true }
    } else if width >= 51 {
        Columns { reference: (width - 31) as usize, disk: false, preset: true }
    } else if width >= 30 {
        Columns { reference: (width - 10) as usize, disk: false, preset: false }
    } else {
        Columns { reference: REF_MIN, disk: false, preset: false }
    }
}

/// `text`, cut from the left to `width` characters when it is longer,
/// with an ellipsis saying so.
pub open spec fn elide_start_view(text: Seq<char>, width: int) -> Seq<char> {
    if text.len() <= width {
        text
    } else if width <= 1 {
        if width <= 0 {
            Seq::empty()
        } else {
            seq![ellipsis()]
        }
    } else {
        seq![ellipsis()] + text.subrange(text.len() - (width - 1), text.len() as int)
    }
}

/// `{:<width$}`: padded with spaces on the right to `width` characters.
pub open spec fn pad_end(text: Seq<char>, width: int) -> Seq<char> {
    if text.len() < width {
        text + repeat(' ', (width - text.len()) as nat)
    } else {
        text
    }
}

/// `{:>width$}`: padded with spaces on the left to `width` characters.
pub open spec fn pad_start(text: Seq<char>, width: int) -> Seq<char> {
    if text.len() < width {
        repeat(' ', (width - text.len()) as nat) + text
    } else {
        text
    }
}

/// The first `W_MARKER` characters of a marker, padded with spaces.
pub open spec fn marker_cell(marker: Seq<char>) -> Seq<char> {
    if marker.len() >= W_MARKER {
        marker.subrange(0, W_MARKER as int)
    } else {
        marker + repeat(' ', (W_MARKER - marker.len()) as nat)
    }
}

/// One line of the table.
pub open spec fn row_view(
    c: Columns,
    marker: Seq<char>,
    reference: Seq<char>,
    size: Seq<char>,
    disk: Seq<char>,
    preset: Seq<char>,
) -> Seq<char> {
    let base = marker_cell(marker) + pad_end(elide_start_view(reference, c.reference as int), c.reference as int)
        + seq![' '] + pad_start(elide_start_view(size, W_SIZE as int), W_SIZE as int);
    let with_disk = if c.disk {
        base + seq![' '] + pad_start(elide_start_view(disk, W_DISK as int), W_DISK as int)
    } else {
        base
    };
    if c.preset {
        with_disk + seq![' '] + pad_end(elide_start_view(preset, W_PRESET as int), W_PRESET as int)
    } else {
        with_disk
    }
}

/// Narrows the reference one character at a time while the row is still
/// too wide for the pane and the reference is above `floor`.
fn shrink_to(columns: &mut Columns, width: usize, floor: usize)
    requires
        old(columns).reference <= REF_MAX,
    ensures
        final(columns).disk == old(columns).disk,
        final(columns).preset == old(columns).preset,
        final(columns).reference == (if columns_width(*old(columns)) <= width || old(columns).reference
            <= floor {
            old(columns).reference as int
        } else if old(columns).reference - (columns_width(*old(columns)) - width) >= floor {
            old(columns).reference - (columns_width(*old(columns)) - width)
        } else {
            floor as int
        }),
{
    let ghost start = *columns;
    while columns.width() > width && columns.reference > floor
        invariant
            columns.disk == start.disk,
            columns.preset == start.preset,
            columns.reference <= start.reference,
            columns.reference <= REF_MAX,
            columns_width(*columns) == columns_width(start) - (start.reference - columns.reference),
            columns.reference < start.reference ==> columns.reference >= floor && columns_width(
                *columns,
            ) >= width,
        decreases columns.reference,
    {
        columns.reference = columns.reference - 1;
    }
}

impl Columns {
    /// How wide a row with these columns is. Marker, reference and size
    /// are never dropped: without the first two a row cannot be
    /// identified, and a cache listing with no sizes has no reason to
    /// exist.
    pub fn width(&self) -> (res: usize)
        requires
            columns_width(*self) <= usize::MAX,
        ensures
            res == columns_width(*self),
    {
        let mut total = W_MARKER + self.reference + 1 + W_SIZE;
        if self.disk {
            total = total + W_DISK + 1;
        }
        if self.preset {
            total = total + W_PRESET + 1;
        }
        total
    }

    /// Fits the table to `width`, **spending the last columns on the
    /// reference rather than on the numbers beside it.**
    ///
    /// The name is what identifies the row; the disk usage is a number
    /// you look at once. So the reference gives ground only to
    /// `REF_COMFORT`, then DISK goes, then it gives the rest, and only then
    /// does the preset name go — the colour already says whether a row is
    /// unreferenced, but it cannot say *which* preset uses it.
    pub fn for_width(width: usize) -> (res: Columns)
        ensures
            res == columns_for(width as int),
            REF_MIN <= res.reference <= REF_MAX,
            columns_width(res) <= width || columns_width(res) == W_MARKER + REF_MIN + 1 + W_SIZE,
            !res.preset ==> !res.disk,
            columns_width(res) < width ==> res.reference == REF_MAX,
            !res.disk ==> width - columns_width(res) < W_DISK + 1 || res.reference == REF_MAX,
            !res.preset ==> width - columns_width(res) < W_PRESET + 1 || res.reference == REF_MAX,
    {
        let mut columns = Columns { reference: REF_MAX, disk: true, preset: true };

        shrink_to(&mut columns, width, REF_COMFORT);

        if columns.width() > width {
            columns.disk = false;
        }
        shrink_to(&mut columns, width, REF_MIN);

        if columns.width() > width {
            columns.preset = false;
        }
        shrink_to(&mut columns, width, REF_MIN);

        // Whatever is spare goes back to the reference — a wider terminal
        // should show more of the name, not more empty space.
        let ghost fitted = columns;
        while columns.width() < width && columns.reference < REF_MAX
            invariant
                columns.reference <= REF_MAX,
                columns.disk == fitted.disk,
                columns.preset == fitted.preset,
                columns.reference >= fitted.reference,
                columns.reference > fitted.reference ==> columns_width(columns) <= width,
            decreases REF_MAX - columns.reference,
        {
            columns.reference = columns.reference + 1;
        }
        columns
    }

    /// The column headings, laid out like a row.
    pub fn header(&self) -> (res: String)
        ensures
            res@ == row_view(*self, "  "@, "MODEL"@, "SIZE"@, "DISK"@, "PRESET"@),
            res@.len() == columns_width(*self),
    {
        self.row("  ", "MODEL", "SIZE", "DISK", "PRESET")
    }

    /// One line of the table, exactly `width()` characters wide.
    pub fn row(&self, marker: &str, reference: &str, size: &str, disk: &str, preset: &str) -> (res:
        String)
        ensures
            res@ == row_view(*self, marker@, reference@, size@, disk@, preset@),
            res@.len() == columns_width(*self),
    {
        let mut line = String::new();
        let m = chars_of(marker);
        if m.len() >= W_MARKER {
            push_char(&mut line, m[0]);
            push_char(&mut line, m[1]);
            assert(line@ =~= marker_cell(marker@));
        } else {
            push_chars(&mut line, m.as_slice());
            push_repeat(&mut line, ' ', W_MARKER - m.len());
            assert(line@ =~= marker_cell(marker@));
        }
        push_padded_end(&mut line, elide_start(reference, self.reference).as_str(), self.reference);
        push_char(&mut line, ' ');
        push_padded_start(&mut line, elide_start(size, W_SIZE).as_str(), W_SIZE);
        let ghost base = line@;
        if self.disk {
            push_char(&mut line, ' ');
            push_padded_start(&mut line, elide_start(disk, W_DISK).as_str(), W_DISK);
        }
        if self.preset {
            push_char(&mut line, ' ');
            push_padded_end(&mut line, elide_start(preset, W_PRESET).as_str(), W_PRESET);
        }
        assert(line@ =~= row_view(*self, marker@, reference@, size@, disk@, preset@));
        line
    }
}

/// Appends `text` padded on the right to `width` (`{:<width$}`).
pub(crate) fn push_padded_end(line: &mut String, text: &str, width: usize)
    ensures
        final(line)@ == old(line)@ + pad_end(text@, width as int),
{
    let ghost start = line@;
    let n = text.unicode_len();
    line.append(text);
    if n < width {
        push_repeat(line, ' ', width - n);
    }
    assert(line@ =~= start + pad_end(text@, width as int));
}

/// Appends `text` padded on the left to `width` (`{:>width$}`).
pub(crate) fn push_padded_start(line: &mut String, text: &str, width: usize)
    ensures
        final(line)@ == old(line)@ + pad_start(text@, width as int),
{
    let ghost start = line@;
    let n = text.unicode_len();
    if n < width {
        push_repeat(line, ' ', width - n);
    }
    line.append(text);
    assert(line@ =~= start + pad_start(text@, width as int));
}

/// Elides from the *left* of a repo reference, unlike the Models table.
///
/// The end is where the information is — `Qwen3-14B-GGUF:Q4_K_XL` — and
/// the start is a vendor name repeated on most rows. Cutting the tail off
/// would leave a column of `unsloth/Qwen3-14B-it-qat-G…` that cannot be
/// told apart.
pub fn elide_start(text: &str, width: usize) -> (res: String)
    ensures
        res@ == elide_start_view(text@, width as int),
        res@.len() == (if text@.len() <= width {
            text@.len() as int
        } else {
            width as int
        }),
{
    let chars = chars_of(text);
    let length = chars.len();
    if length <= width {
        return string_of(chars.as_slice());
    }
    let mut out = String::new();
    if width <= 1 {
        if width == 1 {
            push_char(&mut out, '…');
        }
        assert(out@ =~= elide_start_view(text@, width as int));
        return out;
    }
    push_char(&mut out, '…');
    let ghost head = out@;
    for i in length - (width - 1)..length
        invariant
            length == chars@.len(),
            width > 1,
            length > width,
            out@ == head + chars@.subrange(length - (width - 1), i as int),
    {
        push_char(&mut out, chars[i]);
        assert(chars@.subrange(length - (width - 1), i + 1) =~= chars@.subrange(
            length - (width - 1),
            i as int,
        ).push(chars@[i as int]));
    }
    assert(out@ =~= elide_start_view(text@, width as int));
    out
}

/// The binary unit a byte count is shown in: 1 for K, 2 for M, 3 for G,
/// 4 for T.
pub open spec fn unit_of(bytes: nat) -> nat {
    if bytes < 1048576 {
        1
    } else if bytes < 1073741824 {
        2
    } else if bytes < 1099511627776 {
        3
    } else {
        4
    }
}

/// How many bytes one of that unit is.
pub open spec fn unit_size(unit: nat) -> nat {
    if unit == 1 {
        1024
    } else if unit == 2 {
        1048576
    } else if unit == 3 {
        1073741824
    } else {
        1099511627776
    }
}

/// The letter of a unit.
pub open spec fn unit_letter(unit: nat) -> char {
    if unit == 1 {
        'K'
    } else if unit == 2 {
        'M'
    } else if unit == 3 {
        'G'
    } else {
        'T'
    }
}

/// A byte count the way the cache screens show it: whole bytes below a
/// KiB, otherwise tenths of the largest binary unit that fits (K, M, G,
/// T), rounded half up — `6.7G`, `20.6G`, `512B`.
pub open spec fn human_bytes_view(bytes: nat) -> Seq<char> {
    if bytes < 1024 {
        decimal(bytes) + seq!['B']
    } else {
        let size = unit_size(unit_of(bytes));
        let tenths = (bytes * 10 + size / 2) / size;
        decimal(tenths / 10) + seq!['.', digit_char(tenths % 10), unit_letter(unit_of(bytes))]
    }
}

/// A byte count the way the cache screens show it.
pub fn human_bytes(bytes: u64) -> (res: String)
    ensures
        res@ == human_bytes_view(bytes as nat),
{
    let mut out = String::new();
    if bytes < 1024 {
        push_decimal(&mut out, bytes);
        push_char(&mut out, 'B');
        assert(out@ =~= human_bytes_view(bytes as nat));
        return out;
    }
    let (size, letter): (u128, char) = if bytes < 1048576 {
        (1024, 'K')
    } else if bytes < 1073741824 {
        (1048576, 'M')
    } else if bytes < 1099511627776 {
        (1073741824, 'G')
    } else {
        (1099511627776, 'T')
    };
    assert(size == unit_size(unit_of(bytes as nat)));
    let tenths: u128 = ((bytes as u128) * 10 + size / 2) / size;
    assert(tenths as int <= 0xFFFF_FFFF_FFFF_FFFF) by (nonlinear_arith)
        requires
            size as int >= 1024,
            tenths as int == (bytes as int * 10 + size as int / 2) / size as int,
            bytes as int <= 0xFFFF_FFFF_FFFF_FFFF,
    ;
    push_decimal(&mut out, (tenths / 10) as u64);
    push_char(&mut out, '.');
    push_char(&mut out, (48u8 + (tenths % 10) as u8) as char);
    push_char(&mut out, letter);
    assert(out@ =~= human_bytes_view(bytes as nat));
    out
}

/// A size cell: the figure, or `-` when it was never measured — a size
/// nobody measured is not a size of zero.
pub fn size(bytes: Option<u64>) -> (res: String)
    ensures
        res@ == match bytes {
            Some(b) => human_bytes_view(b as nat),
            None => seq!['-'],
        },
{
    match bytes {
        Some(b) => human_bytes(b),
        None => {
            let mut s = String::new();
            push_char(&mut s, '-');
            s
        },
    }
}

/// The repo's disk usage, marked with `*` when it is shared: two
/// quantisations of one repo share a blobs directory and the cache keeps
/// no per-quantisation accounting, so splitting the total would be
/// inventing a number.
pub fn disk(row: &HubRow) -> (res: String)
    ensures
        res@ == match row.disk {
            None => seq!['-'],
            Some(b) => if row.shares_disk {
                human_bytes_view(b as nat).push('*')
            } else {
                human_bytes_view(b as nat)
            },
        },
{
    match row.disk {
        None => {
            let mut s = String::new();
            push_char(&mut s, '-');
            s
        },
        Some(bytes) => {
            let mut s = human_bytes(bytes);
            if row.shares_disk {
                push_char(&mut s, '*');
            }
            s
        },
    }
}

/// Whether no preset in the active tier names a row's repo.
pub open spec fn unreferenced() -> spec_fn(HubRow) -> bool {
    |row: HubRow| row.preset is None
}

/// The Hub's one-line summary: how many models the cache holds, what they
/// cost on disk, and how many of them no preset in this tier names.
pub open spec fn summary_view(rows: Seq<HubRow>, disk_bytes: nat) -> Seq<char> {
    if rows.len() == 0 {
        Seq::empty()
    } else {
        let n = rows.filter(unreferenced()).len();
        let tail = if n == 0 {
            "every model has a preset in this tier"@
        } else {
            decimal(n) + " not named by this tier (in cyan)"@
        };
        decimal(rows.len()) + " model(s) · "@ + human_bytes_view(disk_bytes) + " on disk · "@ + tail
    }
}

/// What the cache costs, and how much of it this tier can use. Nothing at
/// all while the cache is empty.
pub fn summary(rows: &[HubRow], disk_bytes: u64) -> (res: String)
    ensures
        res@ == summary_view(rows@, disk_bytes as nat),
{
    if rows.len() == 0 {
        return String::new();
    }
    let mut count: usize = 0;
    for i in 0..rows.len()
        invariant
            count == rows@.subrange(0, i as int).filter(unreferenced()).len(),
            count <= i,
    {
        let ghost before = rows@.subrange(0, i as int);
        let ghost after = rows@.subrange(0, i + 1);
        assert(after.drop_last() =~= before);
        assert(after.last() == rows@[i as int]);
        assert(after.filter(unreferenced()) == if unreferenced()(rows@[i as int]) {
            before.filter(unreferenced()).push(rows@[i as int])
        } else {
            before.filter(unreferenced())
        }) by {
            reveal(Seq::filter);
        }
        if rows[i].preset.is_none() {
            count = count + 1;
        }
    }
    assert(rows@.subrange(0, rows@.len() as int) =~= rows@);
    let mut out = String::new();
    push_decimal(&mut out, rows.len() as u64);
    out.append(" model(s) · ");
    out.append(human_bytes(disk_bytes).as_str());
    out.append(" on disk · ");
    if count == 0 {
        out.append("every model has a preset in this tier");
    } else {
        push_decimal(&mut out, count as u64);
        out.append(" not named by this tier (in cyan)");
    }
    assert(out@ =~= summary_view(rows@, disk_bytes as nat));
    out
}

/// What the Hub screen says when it has no rows. Nothing is claimed
/// before llama.cpp has answered: an empty list and an unanswered one look
/// identical, and only one of them means the machine holds no models.
pub open spec fn empty_view(answered: bool) -> Seq<char> {
    if answered {
        "llama.cpp reports no models in its cache"@
    } else {
        "asking llama-server what it has…"@
    }
}

/// The Hub screen's message for an empty list; `answered` is whether
/// llama.cpp has reported its cache yet.
pub fn empty_message(answered: bool) -> (res: String)
    ensures
        res@ == empty_view(answered),
{
    if answered {
        String::from_str("llama.cpp reports no models in its cache")
    } else {
        String::from_str("asking llama-server what it has…")
    }
}

} // verus!
