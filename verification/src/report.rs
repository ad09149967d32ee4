//! The information report on a song: the lines the `info` command prints.

use vstd::prelude::*;

verus! {

/// The character of a decimal digit.
pub open spec fn digit_char(d: int) -> char {
    if d == 0 {
        '0'
    } else if d == 1 {
        '1'
    } else if d == 2 {
        '2'
    } else if d == 3 {
        '3'
    } else if d == 4 {
        '4'
    } else if d == 5 {
        '5'
    } else if d == 6 {
        '6'
    } else if d == 7 {
        '7'
    } else if d == 8 {
        '8'
    } else {
        '9'
    }
}

/// The decimal notation of `n`, as `{}` formats an unsigned integer: its
/// digits from the most significant, with no leading zero.
pub open spec fn decimal_spec(n: nat) -> Seq<char>
    decreases n,
{
    if n < 10 {
        seq![digit_char(n as int)]
    } else {
        decimal_spec(n / 10).push(digit_char((n % 10) as int))
    }
}

/// The value of a digit character (`'0'` is 0, ..., `'9'` is 9).
pub open spec fn digit_value(c: char) -> int {
    c as int - '0' as int
}

/// The number a string of decimal digits stands for, read from the most
/// significant digit.
pub open spec fn decimal_value(digits: Seq<char>) -> int
    decreases digits.len(),
{
    if digits.len() == 0 {
        0
    } else {
        decimal_value(digits.drop_last()) * 10 + digit_value(digits.last())
    }
}

/// The decimal notation of a number stands for that number: it is made of
/// the digits `0`..`9` only, read back it gives the number, and it has no
/// leading zero but for zero itself.
pub proof fn decimal_denotes_its_number(n: nat)
    ensures
        decimal_spec(n).len() >= 1,
        forall|i: int|
            0 <= i < decimal_spec(n).len() ==> '0' <= #[trigger] decimal_spec(n)[i] <= '9',
        decimal_value(decimal_spec(n)) == n,
        n > 0 ==> decimal_spec(n)[0] != '0',
        n == 0 ==> decimal_spec(n) == seq!['0'],
    decreases n,
{
    if n < 10 {
        let d = decimal_spec(n);
        assert(d.drop_last() =~= Seq::<char>::empty());
        assert(decimal_value(d.drop_last()) == 0);
        assert(digit_value(digit_char(n as int)) == n);
        assert(decimal_value(d) == decimal_value(d.drop_last()) * 10 + digit_value(d.last()));
    } else {
        decimal_denotes_its_number(n / 10);
        let head = decimal_spec(n / 10);
        let d = decimal_spec(n);
        assert(d == head.push(digit_char((n % 10) as int)));
        assert(d.drop_last() =~= head);
        assert(digit_value(digit_char((n % 10) as int)) == n % 10);
        assert(decimal_value(d) == decimal_value(head) * 10 + (n % 10) as int);
        assert((n / 10) as int * 10 + (n % 10) as int == n as int) by (nonlinear_arith);
        assert(d[0] == head[0]);
        assert forall|i: int| 0 <= i < d.len() implies '0' <= #[trigger] d[i] <= '9' by {
            if i < head.len() {
                assert(d[i] == head[i]);
            }
        }
    }
}

fn digit_str(d: u64) -> (res: &'static str)
    requires
        d < 10,
    ensures
        res@ == seq![digit_char(d as int)],
{
    proof {
        reveal_strlit("0");
        reveal_strlit("1");
        reveal_strlit("2");
        reveal_strlit("3");
        reveal_strlit("4");
        reveal_strlit("5");
        reveal_strlit("6");
        reveal_strlit("7");
        reveal_strlit("8");
        reveal_strlit("9");
    }
    if d == 0 {
        "0"
    } else if d == 1 {
        "1"
    } else if d == 2 {
        "2"
    } else if d == 3 {
        "3"
    } else if d == 4 {
        "4"
    } else if d == 5 {
        "5"
    } else if d == 6 {
        "6"
    } else if d == 7 {
        "7"
    } else if d == 8 {
        "8"
    } else {
        "9"
    }
}

/// Writes `n` in decimal.
pub fn decimal(n: u64) -> (res: String)
    ensures
        res@ == decimal_spec(n as nat),
        decimal_value(res@) == n,
    decreases n,
{
    proof {
        decimal_denotes_its_number(n as nat);
    }
    if n < 10 {
        String::from_str(digit_str(n))
    } else {
        let head = decimal(n / 10);
        head.concat(digit_str(n % 10))
    }
}

/// How a song's instruments split between the built-in (vanilla) ones and
/// custom ones, as the report words it.
pub open spec fn instrument_summary_spec(vanilla: nat, custom: nat) -> Seq<char> {
    if vanilla == 0 && custom == 0 {
        "no instruments"@
    } else if vanilla == 0 {
        "custom"@
    } else if custom == 0 {
        "vanilla"@
    } else {
        decimal_spec(vanilla) + " vanilla, "@ + decimal_spec(custom) + " custom"@
    }
}

/// Words how a song's instruments split between vanilla and custom ones.
pub fn instrument_summary(vanilla: usize, custom: usize) -> (res: String)
    ensures
        res@ == instrument_summary_spec(vanilla as nat, custom as nat),
{
    if vanilla == 0 && custom == 0 {
        String::from_str("no instruments")
    } else if vanilla == 0 {
        String::from_str("custom")
    } else if custom == 0 {
        String::from_str("vanilla")
    } else {
        decimal(vanilla as u64).concat(" vanilla, ").concat(decimal(custom as u64).as_str()).concat(
            " custom",
        )
    }
}

/// The sum of a sequence of counts.
pub open spec fn total(counts: Seq<usize>) -> nat
    decreases counts.len(),
{
    if counts.len() == 0 {
        0
    } else {
        total(counts.drop_last()) + counts.last() as nat
    }
}

proof fn lemma_total_take(counts: Seq<usize>, i: int)
    requires
        0 <= i < counts.len(),
    ensures
        total(counts.take(i + 1)) == total(counts.take(i)) + counts[i] as nat,
        total(counts.take(i)) <= total(counts.take(i + 1)),
{
    assert(counts.take(i + 1).drop_last() =~= counts.take(i));
}

proof fn lemma_total_prefix_bound(counts: Seq<usize>, i: int)
    requires
        0 <= i <= counts.len(),
    ensures
        total(counts.take(i)) <= total(counts),
    decreases counts.len() - i,
{
    if i < counts.len() {
        lemma_total_take(counts, i);
        lemma_total_prefix_bound(counts, i + 1);
    } else {
        assert(counts.take(i) =~= counts);
    }
}

/// The number of notes in a song, given the number of notes in each of its
/// layers.
pub fn note_count(layer_note_counts: &Vec<usize>) -> (res: usize)
    requires
        total(layer_note_counts@) <= usize::MAX,
    ensures
        res == total(layer_note_counts@),
{
    let mut sum: usize = 0;
    let mut i: usize = 0;
    while i < layer_note_counts.len()
        invariant
            i <= layer_note_counts@.len(),
            sum == total(layer_note_counts@.take(i as int)),
            total(layer_note_counts@) <= usize::MAX,
        decreases layer_note_counts@.len() - i,
    {
        proof {
            lemma_total_take(layer_note_counts@, i as int);
            lemma_total_prefix_bound(layer_note_counts@, i as int + 1);
        }
        sum = sum + layer_note_counts[i];
        i = i + 1;
    }
    proof {
        assert(layer_note_counts@.take(layer_note_counts@.len() as int) =~= layer_note_counts@);
    }
    sum
}

/// What the report says of a song.
pub struct SongOverview {
    pub name: String,
    pub description: String,
    pub author: String,
    pub original_author: String,
    pub notes: usize,
    pub instruments: usize,
    pub vanilla_instruments: usize,
    pub custom_instruments: usize,
    pub layers: usize,
    pub ticks: usize,
}

/// The lines of the report, in order: a title line, the description, the
/// author, the original author, and the counts of notes, instruments, layers
/// and ticks. The title line ends in a line break of its own, and the author
/// line starts with one, which set the description apart.
pub open spec fn report_lines_spec(o: &SongOverview) -> Seq<Seq<char>> {
    seq![
        "========== '"@ + o.name@ + "' ==========\n"@,
        o.description@,
        "\nAuthor: "@ + o.author@,
        "Original Author: "@ + o.original_author@,
        "Notes: "@ + decimal_spec(o.notes as nat),
        "Instruments: "@ + decimal_spec(o.instruments as nat) + " ("@ + instrument_summary_spec(
            o.vanilla_instruments as nat,
            o.custom_instruments as nat,
        ) + ")"@,
        "Layers: "@ + decimal_spec(o.layers as nat),
        "Ticks: "@ + decimal_spec(o.ticks as nat) + " ticks"@,
    ]
}

/// Writes the lines of the report on a song.
pub fn report_lines(o: &SongOverview) -> (res: Vec<String>)
    ensures
        res@.map_values(|l: String| l@) == report_lines_spec(o),
{
    let mut lines: Vec<String> = Vec::new();
    lines.push(String::from_str("========== '").concat(o.name.as_str()).concat("' ==========\n"));
    lines.push(o.description.clone());
    lines.push(String::from_str("\nAuthor: ").concat(o.author.as_str()));
    lines.push(String::from_str("Original Author: ").concat(o.original_author.as_str()));
    lines.push(String::from_str("Notes: ").concat(decimal(o.notes as u64).as_str()));
    let summary = instrument_summary(o.vanilla_instruments, o.custom_instruments);
    lines.push(
        String::from_str("Instruments: ").concat(decimal(o.instruments as u64).as_str()).concat(
            " (",
        ).concat(summary.as_str()).concat(")"),
    );
    lines.push(String::from_str("Layers: ").concat(decimal(o.layers as u64).as_str()));
    lines.push(
        String::from_str("Ticks: ").concat(decimal(o.ticks as u64).as_str()).concat(" ticks"),
    );
    assert(lines@.map_values(|l: String| l@) =~= report_lines_spec(o));
    lines
}

} // verus!
