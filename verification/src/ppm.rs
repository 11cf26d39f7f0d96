//! The plain portable pixmap format: a header of three lines, then one
//! triple of decimal numbers for every pixel.

use vstd::prelude::*;
use vstd::string::StringExecFns;

verus! {

/// Something that can be written out as a portable pixmap.
pub trait Ppm {
    /// Writes the pixmap: a line that names the format, a line with the width
    /// and the height, a line with the largest value of a channel, then the
    /// pixels.
    /// By convention no line is longer than 70 characters.
    fn to_ppm(&self) -> String;
}

/// A color that can be written as a pixel of a portable pixmap.
pub trait PpmColor {
    /// Writes the pixel as `red green blue`, each a whole number from 0 to
    /// 255.
    fn to_ppm_color(&self) -> String;
}

/// How many pixels stand on one line of a pixmap.
pub const PIXELS_PER_LINE: u32 = 5;

/// The character for a digit from 0 to 9.
pub open spec fn digit(d: nat) -> char {
    if d == 0 {
        '0'
    } else if d == 1 {
        '1'
    } else if d == 2 {
        '2'
    } else if d == 3 {
        '3'
    } else if d == 4 {
        '4'
    } else if d == 5 {
        '5'
    } else if d == 6 {
        '6'
    } else if d == 7 {
        '7'
    } else if d == 8 {
        '8'
    } else {
        '9'
    }
}

/// The decimal numeral of `n`, without leading zeros.
pub open spec fn decimal(n: nat) -> Seq<char>
    decreases n,
{
    if n < 10 {
        seq![digit(n)]
    } else {
        decimal(n / 10).push(digit(n % 10))
    }
}

/// The three lines that open a pixmap of the given size.
pub open spec fn header(width: nat, height: nat) -> Seq<char> {
    seq!['P', '3', '\n'] + decimal(width) + seq![' '] + decimal(height) + seq!['\n', '2', '5', '5', '\n']
}

/// What follows the pixel at place `i`, counted from 0: a line break after
/// every fifth pixel, a space after the others.
pub open spec fn separator(i: nat) -> char {
    if (i + 1) % (PIXELS_PER_LINE as nat) == 0 {
        '\n'
    } else {
        ' '
    }
}

/// The first `k` pixels, each with what follows it.
pub open spec fn pixel_run(cells: Seq<Seq<char>>, k: nat) -> Seq<char>
    decreases k,
{
    if k == 0 {
        Seq::empty()
    } else {
        pixel_run(cells, (k - 1) as nat) + cells[k - 1].push(separator((k - 1) as nat))
    }
}

/// The whole pixmap: the header and all the pixels, with a line break in
/// place of the last character.
pub open spec fn pixmap(width: nat, height: nat, cells: Seq<Seq<char>>) -> Seq<char> {
    (header(width, height) + pixel_run(cells, cells.len())).drop_last().push('\n')
}

/// The texts as sequences of characters.
pub open spec fn texts(cells: Seq<String>) -> Seq<Seq<char>> {
    cells.map_values(|cell: String| cell@)
}

/// Appends the decimal numeral of `n` to `s`.
pub fn push_decimal(s: &mut String, n: usize)
    ensures
        final(s)@ == old(s)@ + decimal(n as nat),
    decreases n,
{
    if n >= 10 {
        push_decimal(s, n / 10);
    }
    let d = n % 10;
    proof {
        reveal_strlit("0");
        reveal_strlit("1");
        reveal_strlit("2");
        reveal_strlit("3");
        reveal_strlit("4");
        reveal_strlit("5");
        reveal_strlit("6");
        reveal_strlit("7");
        reveal_strlit("8");
        reveal_strlit("9");
    }
    let text = if d == 0 {
        "0"
    } else if d == 1 {
        "1"
    } else if d == 2 {
        "2"
    } else if d == 3 {
        "3"
    } else if d == 4 {
        "4"
    } else if d == 5 {
        "5"
    } else if d == 6 {
        "6"
    } else if d == 7 {
        "7"
    } else if d == 8 {
        "8"
    } else {
        "9"
    };
    assert(text@ =~= seq![digit(d as nat)]);
    s.append(text);
    assert(s@ =~= old(s)@ + decimal(n as nat));
}

/// The header of a pixmap of the given size.
pub fn header_text(width: usize, height: usize) -> (s: String)
    ensures
        s@ == header(width as nat, height as nat),
{
    let mut s = String::new();
    proof {
        reveal_strlit("P3\n");
        reveal_strlit(" ");
        reveal_strlit("\n255\n");
    }
    s.append("P3\n");
    push_decimal(&mut s, width);
    s.append(" ");
    push_decimal(&mut s, height);
    s.append("\n255\n");
    assert(s@ =~= header(width as nat, height as nat));
    s
}

/// The pixmap of the given size whose pixels, in reading order, have the
/// texts `cells`.  Five pixels stand on a line.
pub fn layout(width: usize, height: usize, cells: &Vec<String>) -> (s: String)
    ensures
        s@ == pixmap(width as nat, height as nat, texts(cells@)),
{
    let ghost all = texts(cells@);
    let ghost head = header(width as nat, height as nat);
    let mut s = header_text(width, height);
    let mut on_line: u32 = 0;
    let mut i: usize = 0;
    while i < cells.len()
        invariant
            i <= cells.len(),
            all == texts(cells@),
            head == header(width as nat, height as nat),
            on_line < PIXELS_PER_LINE,
            on_line as int == (i as int) % (PIXELS_PER_LINE as int),
            i == 0 ==> s@ == head,
            i > 0 ==> s@ == (head + pixel_run(all, i as nat)).drop_last(),
        decreases cells.len() - i,
    {
        let ghost run = head + pixel_run(all, i as nat);
        let ghost next = head + pixel_run(all, (i + 1) as nat);
        proof {
            reveal_strlit(" ");
            reveal_strlit("\n");
            assert(next == run + all[i as int].push(separator(i as nat)));
            assert(next.drop_last() =~= run + all[i as int]);
            if i > 0 {
                assert(pixel_run(all, i as nat) == pixel_run(all, (i - 1) as nat) + all[i - 1].push(
                    separator((i - 1) as nat),
                ));
                assert(run.last() == separator((i - 1) as nat));
                assert(run =~= run.drop_last().push(separator((i - 1) as nat)));
            } else {
                assert(pixel_run(all, 0) =~= Seq::<char>::empty());
                assert(run =~= head);
            }
        }
        if i > 0 {
            if on_line == 0 {
                s.append("\n");
            } else {
                s.append(" ");
            }
        }
        assert(s@ =~= run);
        s.append(cells[i].as_str());
        assert(s@ =~= next.drop_last());
        on_line = if on_line + 1 == PIXELS_PER_LINE { 0 } else { on_line + 1 };
        i = i + 1;
    }
    proof {
        reveal_strlit("\n");
        if i == 0 {
            assert(pixel_run(all, 0) =~= Seq::<char>::empty());
            assert(head + pixel_run(all, 0) =~= head);
            assert(head.last() == '\n');
            assert(head =~= head.drop_last().push('\n'));
        }
    }
    if i > 0 {
        s.append("\n");
    }
    s
}

} // verus!
