//! Verified text building: decimal rendering of machine integers and
//! newline joining of instruction lists, shared by both code generators.

use vstd::prelude::*;

verus! {

/// The character of a decimal digit.
pub open spec fn digit_char(d: nat) -> char
    recommends
        d < 10,
{
    if d == 0 {
        '0'
    } else if d == 1 {
        '1'
    } else if d == 2 {
        '2'
    } else if d == 3 {
        '3'
    } else if d == 4 {
        '4'
    } else if d == 5 {
        '5'
    } else if d == 6 {
        '6'
    } else if d == 7 {
        '7'
    } else if d == 8 {
        '8'
    } else {
        '9'
    }
}

/// The decimal rendering of a natural number, most significant digit first.
pub open spec fn dec_str(n: nat) -> Seq<char>
    decreases n,
{
    if n < 10 {
        seq![digit_char(n)]
    } else {
        dec_str(n / 10).push(digit_char(n % 10))
    }
}

/// The one-character string of a decimal digit.
fn digit_str(d: usize) -> (r: &'static str)
    requires
        d < 10,
    ensures
        r@ =~= seq![digit_char(d as nat)],
{
    proof {
        reveal_strlit("0");
        reveal_strlit("1");
        reveal_strlit("2");
        reveal_strlit("3");
        reveal_strlit("4");
        reveal_strlit("5");
        reveal_strlit("6");
        reveal_strlit("7");
        reveal_strlit("8");
        reveal_strlit("9");
    }
    if d == 0 {
        "0"
    } else if d == 1 {
        "1"
    } else if d == 2 {
        "2"
    } else if d == 3 {
        "3"
    } else if d == 4 {
        "4"
    } else if d == 5 {
        "5"
    } else if d == 6 {
        "6"
    } else if d == 7 {
        "7"
    } else if d == 8 {
        "8"
    } else {
        "9"
    }
}

/// Render a machine integer in decimal.
pub fn usize_to_string(n: usize) -> (r: String)
    ensures
        r@ == dec_str(n as nat),
    decreases n,
{
    let d: usize = n % 10;
    let ds: &str = digit_str(d);
    if n < 10 {
        let r = String::from_str(ds);
        proof {
            assert(r@ =~= dec_str(n as nat));
        }
        r
    } else {
        let mut s = usize_to_string(n / 10);
        s.append(ds);
        proof {
            assert(s@ =~= dec_str(n as nat));
        }
        s
    }
}

/// The views of a list of strings.
pub open spec fn views(ss: Seq<String>) -> Seq<Seq<char>> {
    ss.map_values(|s: String| s@)
}

pub broadcast proof fn lemma_views_push(ss: Seq<String>, s: String)
    ensures
        #[trigger] views(ss.push(s)) =~= views(ss).push(s@),
{
}

pub broadcast proof fn lemma_views_add(a: Seq<String>, b: Seq<String>)
    ensures
        #[trigger] views(a + b) =~= views(a) + views(b),
{
}

/// The newline-joined text of a list of code lines, one trailing newline
/// after each line.
pub open spec fn cat_lines(ss: Seq<Seq<char>>) -> Seq<char>
    decreases ss.len(),
{
    if ss.len() == 0 {
        Seq::empty()
    } else {
        ss[0] + seq!['\n'] + cat_lines(ss.skip(1))
    }
}

/// The merged text of an emitted instruction list: every line followed by a
/// newline; an empty list merges to a single newline.
pub open spec fn merge_spec(ss: Seq<Seq<char>>) -> Seq<char> {
    if ss.len() == 0 {
        seq!['\n']
    } else {
        cat_lines(ss)
    }
}

pub proof fn lemma_cat_lines_snoc(ss: Seq<Seq<char>>, s: Seq<char>)
    ensures
        cat_lines(ss.push(s)) =~= cat_lines(ss) + s + seq!['\n'],
    decreases ss.len(),
{
    if ss.len() == 0 {
        assert(ss.push(s).skip(1) =~= Seq::<Seq<char>>::empty());
        assert(ss.push(s)[0] == s);
        assert(cat_lines(ss.push(s)) == s + seq!['\n'] + cat_lines(
            Seq::<Seq<char>>::empty(),
        ));
        assert(cat_lines(ss.push(s)) =~= cat_lines(ss) + s + seq!['\n']);
    } else {
        assert(ss.push(s).skip(1) =~= ss.skip(1).push(s));
        lemma_cat_lines_snoc(ss.skip(1), s);
        assert(ss.push(s)[0] == ss[0]);
        assert(cat_lines(ss.push(s)) == ss[0] + seq!['\n'] + (cat_lines(ss.skip(1)) + s
            + seq!['\n']));
        assert(cat_lines(ss) == ss[0] + seq!['\n'] + cat_lines(ss.skip(1)));
        assert(ss[0] + seq!['\n'] + (cat_lines(ss.skip(1)) + s + seq!['\n']) =~= (ss[0]
            + seq!['\n'] + cat_lines(ss.skip(1))) + s + seq!['\n']);
    }
}

/// Join emitted code lines into one text, a newline after every line.
pub fn merge_code(instructions: Vec<String>) -> (r: String)
    ensures
        r@ == merge_spec(views(instructions@)),
{
    proof {
        reveal_strlit("\n");
    }
    let n: usize = instructions.len();
    if n == 0 {
        let r = String::from_str("\n");
        proof {
            assert(r@ =~= merge_spec(views(instructions@)));
        }
        return r;
    }
    let mut out = String::new();
    let mut i: usize = 0;
    while i < n
        invariant
            0 <= i <= n,
            n == instructions@.len(),
            out@ == cat_lines(views(instructions@.take(i as int))),
        decreases n - i,
    {
        proof {
            assert(views(instructions@.take(i as int + 1)) =~= views(
                instructions@.take(i as int),
            ).push(instructions@[i as int]@));
            lemma_cat_lines_snoc(
                views(instructions@.take(i as int)),
                instructions@[i as int]@,
            );
            reveal_strlit("\n");
        }
        out.append(instructions[i].as_str());
        out.append("\n");
        i = i + 1;
    }
    proof {
        assert(instructions@.take(n as int) =~= instructions@);
        assert(n > 0);
    }
    out
}

} // verus!
