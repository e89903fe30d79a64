//! What the generated header, the patch and the build report come to.

use vstd::prelude::*;
use crate::config::ConfigView;
use crate::decimal::{law_i32_reads_back, lemma_decimal_plain, read_i32, signed_decimal};
use crate::firmware::{
    build_report_spec, define_lines, header_comment, include_line, launch_failed_lines, pin_lines,
    report_lines, zeus_header,
};
use crate::project::{config_path, configuration_path, header_path};
use crate::stepper::AppView;
use crate::text::{contains, is_blank, lines, starts_with, strip_cr, trim, unlines};
use crate::text_facts::{
    lemma_contains_middle, lemma_lines_front, lemma_no_break, lemma_trim_contains,
    lemma_trim_result, lemma_trim_strip_cr, no_break_upto,
};
use crate::text_laws::{law_lines, law_starts_with};

verus! {

/// A text that keeps to its line, and reads back from it as it was written.
pub open spec fn value_fits(s: Seq<char>) -> bool {
    !s.contains('\n') && (s.len() > 0 ==> s.last() != '\r')
}

/// The first lines of a text read back, whatever follows them.
pub proof fn lemma_lines_begin(a: Seq<Seq<char>>, b: Seq<Seq<char>>)
    requires
        forall|i: int| 0 <= i < a.len() ==> value_fits(#[trigger] a[i]),
    ensures
        lines(unlines(a + b)) == a + lines(unlines(b)),
    decreases a.len(),
{
    if a.len() == 0 {
        assert(a + b == b);
        assert(a + lines(unlines(b)) == lines(unlines(b)));
    } else {
        let rest = a.drop_first();
        assert forall|i: int| 0 <= i < rest.len() implies value_fits(#[trigger] rest[i]) by {
            assert(rest[i] == a[i + 1]);
        }
        lemma_lines_begin(rest, b);
        assert((a + b).drop_first() == rest + b);
        assert(value_fits(a[0]));
        lemma_lines_front(a[0], unlines(rest + b));
        assert(strip_cr(a[0]) == a[0]);
        assert((a + b)[0] == a[0]);
        assert(seq![a[0]] + (rest + lines(unlines(b))) == a + lines(unlines(b)));
    }
}

/// The head of the line that gives a symbol a value: `#define`, the symbol, and
/// a blank on either side.
pub open spec fn define_head(symbol: Seq<char>) -> Seq<char> {
    seq!['#', 'd', 'e', 'f', 'i', 'n', 'e', ' '] + symbol + seq![' ']
}

/// The values that lines give to a symbol, in order.
pub open spec fn values_of(ls: Seq<Seq<char>>, symbol: Seq<char>) -> Seq<Seq<char>>
    decreases ls.len(),
{
    if ls.len() == 0 {
        Seq::empty()
    } else if starts_with(ls.last(), define_head(symbol)) {
        values_of(ls.drop_last(), symbol).push(
            ls.last().skip(define_head(symbol).len() as int),
        )
    } else {
        values_of(ls.drop_last(), symbol)
    }
}

proof fn lemma_values_add(a: Seq<Seq<char>>, b: Seq<Seq<char>>, symbol: Seq<char>)
    ensures
        values_of(a + b, symbol) == values_of(a, symbol) + values_of(b, symbol),
    decreases b.len(),
{
    if b.len() == 0 {
        assert(a + b == a);
    } else {
        assert((a + b).drop_last() == a + b.drop_last());
        assert((a + b).last() == b.last());
        lemma_values_add(a, b.drop_last(), symbol);
    }
}

/// A line that begins otherwise gives no symbol a value.
proof fn lemma_no_define(l: Seq<char>, symbol: Seq<char>)
    requires
        l.len() < 2 || l[0] != '#' || l[1] != 'd',
    ensures
        !starts_with(l, define_head(symbol)),
{
    law_starts_with(define_head(symbol), l);
    assert(define_head(symbol)[0] == '#' && define_head(symbol)[1] == 'd');
    if starts_with(l, define_head(symbol)) {
        assert(l[0] == define_head(symbol)[0]);
        assert(l[1] == define_head(symbol)[1]);
    }
}

/// The value that a line of the header's own gives: to its symbol the value,
/// and to no other symbol any.
proof fn lemma_define_line(symbol: Seq<char>, value: Seq<char>, other: Seq<char>)
    requires
        !symbol.contains(' '),
        !other.contains(' '),
    ensures
        "#define "@ + symbol + " "@ + value == define_head(symbol) + value,
        starts_with(define_head(symbol) + value, define_head(other)) <==> symbol == other,
        (define_head(symbol) + value).skip(define_head(symbol).len() as int) == value,
{
    reveal_strlit("#define ");
    reveal_strlit(" ");
    assert("#define "@ == seq!['#', 'd', 'e', 'f', 'i', 'n', 'e', ' ']);
    assert(" "@ == seq![' ']);
    let l = define_head(symbol) + value;
    let h = define_head(other);
    law_starts_with(h, l);
    law_starts_with(define_head(symbol), value);
    assert(l.skip(define_head(symbol).len() as int) == value);
    let m = symbol.len() as int;
    let n = other.len() as int;
    if starts_with(l, h) && symbol != other {
        assert forall|i: int| 0 <= i < n && i < m implies symbol[i] == other[i] by {
            assert(l[8 + i] == h[8 + i]);
            assert(l[8 + i] == symbol[i]);
            assert(h[8 + i] == other[i]);
        }
        if n < m {
            assert(l[8 + n] == h[8 + n]);
            assert(h[8 + n] == ' ');
            assert(l[8 + n] == symbol[n]);
        } else if m < n {
            assert(l[8 + m] == h[8 + m]);
            assert(l[8 + m] == ' ');
            assert(h[8 + m] == other[m]);
        } else {
            assert(symbol == other);
        }
    }
}

proof fn lemma_values_of_define(symbol: Seq<char>, value: Seq<char>, other: Seq<char>)
    requires
        !symbol.contains(' '),
        !other.contains(' '),
    ensures
        values_of(define_lines(symbol, value), other) == if symbol == other {
            seq![value]
        } else {
            seq![]
        },
{
    let ls = define_lines(symbol, value);
    reveal_strlit("");
    reveal_strlit("#ifdef ");
    reveal_strlit("#  undef ");
    reveal_strlit("#endif");
    lemma_define_line(symbol, value, other);
    lemma_no_define(ls[0], other);
    assert(ls[1][1] == 'i');
    lemma_no_define(ls[1], other);
    assert(ls[2][1] == ' ');
    lemma_no_define(ls[2], other);
    assert(ls[3][1] == 'e');
    lemma_no_define(ls[3], other);
    let a = ls.drop_last();
    let b = a.drop_last();
    let c = b.drop_last();
    let d = c.drop_last();
    assert(a.last() == ls[3] && b.last() == ls[2] && c.last() == ls[1] && d.last() == ls[0]);
    assert(d.drop_last().len() == 0);
    assert(values_of(d.drop_last(), other) == Seq::<Seq<char>>::empty());
    assert(values_of(d, other) == Seq::<Seq<char>>::empty());
    assert(values_of(c, other) == Seq::<Seq<char>>::empty());
    assert(values_of(b, other) == Seq::<Seq<char>>::empty());
    assert(values_of(a, other) == Seq::<Seq<char>>::empty());
    assert(ls.last() == ls[4]);
}

proof fn lemma_values_of_comment(other: Seq<char>)
    ensures
        values_of(header_comment(), other) == Seq::<Seq<char>>::empty(),
{
    reveal_strlit("// Configuration_Zeus.h — Auto-generated by Stepper Control");
    reveal_strlit("// Add to the end of Configuration.h:");
    reveal_strlit("//   #include \"Configuration_Zeus.h\"");
    reveal_strlit("// Do not edit manually.");
    let ls = header_comment();
    lemma_no_define(ls[0], other);
    lemma_no_define(ls[1], other);
    lemma_no_define(ls[2], other);
    lemma_no_define(ls[3], other);
    let a = ls.drop_last();
    let b = a.drop_last();
    let c = b.drop_last();
    assert(a.last() == ls[2] && b.last() == ls[1] && c.last() == ls[0]);
    assert(c.drop_last().len() == 0);
    assert(values_of(c.drop_last(), other) == Seq::<Seq<char>>::empty());
    assert(values_of(c, other) == Seq::<Seq<char>>::empty());
    assert(values_of(b, other) == Seq::<Seq<char>>::empty());
    assert(values_of(a, other) == Seq::<Seq<char>>::empty());
    assert(ls.last() == ls[3]);
}

/// The symbols of the header hold no blanks and are different from each other.
proof fn lemma_symbols()
    ensures
        forall|i: int, j: int|
            0 <= i < 5 && 0 <= j < 5 ==> (#[trigger] symbols()[i] == #[trigger] symbols()[j] <==> i
                == j),
        forall|i: int| 0 <= i < 5 ==> !(#[trigger] symbols()[i]).contains(' '),
        forall|i: int| 0 <= i < 5 ==> !(#[trigger] symbols()[i]).contains('\n'),
{
    reveal_strlit("Y_HOME_DIR");
    reveal_strlit("Y_MIN_POS");
    reveal_strlit("Y_MAX_POS");
    reveal_strlit("Y_MIN_ENDSTOP_PIN");
    reveal_strlit("Y_MAX_ENDSTOP_PIN");
    let s = symbols();
    assert(s[0].len() == 10 && s[1].len() == 9 && s[2].len() == 9);
    assert(s[3].len() == 17 && s[4].len() == 17);
    assert(s[1][3] == 'I' && s[2][3] == 'A' && s[3][3] == 'I' && s[4][3] == 'A');
    assert forall|i: int, j: int| 0 <= i < 5 && 0 <= j < 5 implies (#[trigger] symbols()[i]
        == #[trigger] symbols()[j] <==> i == j) by {
        if s[i] == s[j] {
            assert(s[i].len() == s[j].len());
            assert(s[i][3] == s[j][3]);
        }
    }
}

/// The symbols that the header may define.
pub open spec fn symbols() -> Seq<Seq<char>> {
    seq![
        "Y_HOME_DIR"@,
        "Y_MIN_POS"@,
        "Y_MAX_POS"@,
        "Y_MIN_ENDSTOP_PIN"@,
        "Y_MAX_ENDSTOP_PIN"@,
    ]
}

proof fn lemma_define_plain(symbol: Seq<char>, value: Seq<char>)
    requires
        !symbol.contains('\n'),
        !symbol.contains(' '),
        symbol.len() > 0 && symbol.last() != '\r',
        value_fits(value),
    ensures
        forall|i: int| 0 <= i < 5 ==> value_fits(#[trigger] define_lines(symbol, value)[i]),
{
    let ls = define_lines(symbol, value);
    reveal_strlit("");
    reveal_strlit("#ifdef ");
    reveal_strlit("#  undef ");
    reveal_strlit("#endif");
    reveal_strlit("#define ");
    reveal_strlit(" ");
    reveal_with_fuel(no_break_upto, 11);
    lemma_no_break("#ifdef "@, 7);
    lemma_no_break("#  undef "@, 9);
    lemma_no_break("#endif"@, 6);
    lemma_no_break("#define "@, 8);
    assert(ls[0] == ""@ && ls[3] == "#endif"@);
    assert(ls[1] == "#ifdef "@ + symbol && ls[2] == "#  undef "@ + symbol);
    assert(ls[4] == "#define "@ + symbol + " "@ + value);
    lemma_joined_plain("#ifdef "@, symbol);
    lemma_joined_plain("#  undef "@, symbol);
    lemma_joined_plain("#define "@, symbol);
    lemma_joined_plain("#define "@ + symbol, " "@);
    lemma_joined_plain("#define "@ + symbol + " "@, value);
}

pub proof fn lemma_joined_plain(a: Seq<char>, b: Seq<char>)
    requires
        value_fits(a),
        value_fits(b),
    ensures
        value_fits(a + b),
{
    let s = a + b;
    if s.contains('\n') {
        let k = choose|k: int| 0 <= k < s.len() && s[k] == '\n';
        if k < a.len() {
            assert(a[k] == '\n');
        } else {
            assert(b[k - a.len()] == '\n');
        }
    }
    if b.len() > 0 {
        assert(s.last() == b.last());
    } else {
        assert(s == a);
    }
}

proof fn lemma_comment_plain()
    ensures
        forall|i: int| 0 <= i < 4 ==> value_fits(#[trigger] header_comment()[i]),
{
    reveal_strlit("// Configuration_Zeus.h — Auto-generated by Stepper Control");
    reveal_strlit("// Add to the end of Configuration.h:");
    reveal_strlit("//   #include \"Configuration_Zeus.h\"");
    reveal_strlit("// Do not edit manually.");
    reveal_with_fuel(no_break_upto, 60);
    let ls = header_comment();
    lemma_no_break(ls[0], ls[0].len());
    lemma_no_break(ls[1], ls[1].len());
    lemma_no_break(ls[2], ls[2].len());
    lemma_no_break(ls[3], ls[3].len());
}

proof fn lemma_symbol_ends()
    ensures
        forall|i: int| 0 <= i < 5 ==> (#[trigger] symbols()[i]).len() > 0 && symbols()[i].last()
            != '\r',
{
    reveal_strlit("Y_HOME_DIR");
    reveal_strlit("Y_MIN_POS");
    reveal_strlit("Y_MAX_POS");
    reveal_strlit("Y_MIN_ENDSTOP_PIN");
    reveal_strlit("Y_MAX_ENDSTOP_PIN");
}

/// The decimal notation of an integer is one plain text.
pub proof fn lemma_decimal_line(n: int)
    ensures
        value_fits(signed_decimal(n)),
{
    let s = signed_decimal(n);
    if s.contains('\n') {
        let k = choose|k: int| 0 <= k < s.len() && s[k] == '\n';
        lemma_decimal_plain(n, k);
    }
    if s.len() > 0 {
        lemma_decimal_plain(n, s.len() - 1);
    }
}

/// The home direction stands on one line of the header, and reads back as the
/// one that was chosen, whatever the other settings are. No line before it
/// gives it a value.
pub proof fn law_header_gives_home_dir(c: ConfigView, y_min_pos: Seq<char>, y_max_pos: Seq<char>)
    ensures
        ({
            let ls = lines(zeus_header(c, y_min_pos, y_max_pos));
            let head = define_head("Y_HOME_DIR"@);
            &&& ls.len() > 8
            &&& starts_with(ls[8], head)
            &&& read_i32(ls[8].skip(head.len() as int)) == Some(c.y_home_dir)
            &&& forall|i: int| 0 <= i < 8 ==> !starts_with(#[trigger] ls[i], head)
        }),
{
    let value = signed_decimal(c.y_home_dir as int);
    let symbol = symbols()[0];
    let a = header_comment() + define_lines(symbol, value);
    let b = define_lines("Y_MIN_POS"@, y_min_pos) + define_lines("Y_MAX_POS"@, y_max_pos)
        + pin_lines("Y_MIN_ENDSTOP_PIN"@, c.y_min_endstop_override, c.y_min_endstop_pin)
        + pin_lines("Y_MAX_ENDSTOP_PIN"@, c.y_max_endstop_override, c.y_max_endstop_pin);
    lemma_symbols();
    lemma_symbol_ends();
    lemma_comment_plain();
    lemma_decimal_line(c.y_home_dir as int);
    lemma_define_plain(symbol, value);
    assert forall|i: int| 0 <= i < a.len() implies value_fits(#[trigger] a[i]) by {
        if i < 4 {
            assert(a[i] == header_comment()[i]);
        } else {
            assert(a[i] == define_lines(symbol, value)[i - 4]);
        }
    }
    assert(header_comment() + define_lines("Y_HOME_DIR"@, signed_decimal(c.y_home_dir as int))
        + define_lines("Y_MIN_POS"@, y_min_pos) + define_lines("Y_MAX_POS"@, y_max_pos)
        + pin_lines("Y_MIN_ENDSTOP_PIN"@, c.y_min_endstop_override, c.y_min_endstop_pin)
        + pin_lines("Y_MAX_ENDSTOP_PIN"@, c.y_max_endstop_override, c.y_max_endstop_pin) == a + b);
    lemma_lines_begin(a, b);
    let ls = lines(zeus_header(c, y_min_pos, y_max_pos));
    assert(ls == a + lines(unlines(b)));
    lemma_define_line(symbol, value, symbol);
    assert(ls[8] == a[8] && a[8] == define_lines(symbol, value)[4]);
    law_i32_reads_back(c.y_home_dir);
    assert forall|i: int| 0 <= i < 8 implies !starts_with(
        #[trigger] ls[i],
        define_head("Y_HOME_DIR"@),
    ) by {
        assert(ls[i] == a[i]);
        lemma_early_lines(value, i);
    }
}

proof fn lemma_early_lines(value: Seq<char>, i: int)
    requires
        0 <= i < 8,
    ensures
        !starts_with(
            (header_comment() + define_lines("Y_HOME_DIR"@, value))[i],
            define_head("Y_HOME_DIR"@),
        ),
{
    reveal_strlit("// Configuration_Zeus.h — Auto-generated by Stepper Control");
    reveal_strlit("// Add to the end of Configuration.h:");
    reveal_strlit("//   #include \"Configuration_Zeus.h\"");
    reveal_strlit("// Do not edit manually.");
    reveal_strlit("");
    reveal_strlit("#ifdef ");
    reveal_strlit("#  undef ");
    reveal_strlit("#endif");
    let l = (header_comment() + define_lines("Y_HOME_DIR"@, value))[i];
    if i >= 4 {
        assert(l == define_lines("Y_HOME_DIR"@, value)[i - 4]);
    } else {
        assert(l == header_comment()[i]);
    }
    lemma_no_define(l, "Y_HOME_DIR"@);
}

/// Headers of configurations with different home directions are different,
/// whatever else is in them.
pub proof fn law_headers_tell_home_dirs_apart(
    c: ConfigView,
    d: ConfigView,
    c_min: Seq<char>,
    c_max: Seq<char>,
    d_min: Seq<char>,
    d_max: Seq<char>,
)
    requires
        c.y_home_dir != d.y_home_dir,
    ensures
        zeus_header(c, c_min, c_max) != zeus_header(d, d_min, d_max),
{
    law_header_gives_home_dir(c, c_min, c_max);
    law_header_gives_home_dir(d, d_min, d_max);
}

/// The lines of the header give each of its symbols one value: the home
/// direction, the two limits, and a pin where its override is on and the pin is
/// not blank. A pin whose override is off, or that is blank, is given none.
pub proof fn law_header_values(c: ConfigView, y_min_pos: Seq<char>, y_max_pos: Seq<char>)
    requires
        value_fits(y_min_pos),
        value_fits(y_max_pos),
        !c.y_min_endstop_pin.contains('\n'),
        !c.y_max_endstop_pin.contains('\n'),
    ensures
        ({
            let ls = lines(zeus_header(c, y_min_pos, y_max_pos));
            &&& values_of(ls, "Y_HOME_DIR"@).len() == 1
            &&& read_i32(values_of(ls, "Y_HOME_DIR"@)[0]) == Some(c.y_home_dir)
            &&& values_of(ls, "Y_MIN_POS"@) == seq![y_min_pos]
            &&& values_of(ls, "Y_MAX_POS"@) == seq![y_max_pos]
            &&& values_of(ls, "Y_MIN_ENDSTOP_PIN"@) == if c.y_min_endstop_override && !is_blank(
                c.y_min_endstop_pin,
            ) {
                seq![trim(c.y_min_endstop_pin)]
            } else {
                seq![]
            }
            &&& values_of(ls, "Y_MAX_ENDSTOP_PIN"@) == if c.y_max_endstop_override && !is_blank(
                c.y_max_endstop_pin,
            ) {
                seq![trim(c.y_max_endstop_pin)]
            } else {
                seq![]
            }
        }),
{
    let home = signed_decimal(c.y_home_dir as int);
    let s = symbols();
    let b0 = header_comment();
    let b1 = define_lines(s[0], home);
    let b2 = define_lines(s[1], y_min_pos);
    let b3 = define_lines(s[2], y_max_pos);
    let b4 = pin_lines(s[3], c.y_min_endstop_override, c.y_min_endstop_pin);
    let b5 = pin_lines(s[4], c.y_max_endstop_override, c.y_max_endstop_pin);
    let all = b0 + b1 + b2 + b3 + b4 + b5;
    lemma_symbols();
    lemma_symbol_ends();
    lemma_comment_plain();
    lemma_decimal_line(c.y_home_dir as int);
    lemma_define_plain(s[0], home);
    lemma_define_plain(s[1], y_min_pos);
    lemma_define_plain(s[2], y_max_pos);
    lemma_pin_plain(s[3], c.y_min_endstop_override, c.y_min_endstop_pin);
    lemma_pin_plain(s[4], c.y_max_endstop_override, c.y_max_endstop_pin);
    lemma_all_plain(b0, b1);
    lemma_all_plain(b0 + b1, b2);
    lemma_all_plain(b0 + b1 + b2, b3);
    lemma_all_plain(b0 + b1 + b2 + b3, b4);
    lemma_all_plain(b0 + b1 + b2 + b3 + b4, b5);
    lemma_lines_begin(all, Seq::empty());
    assert(all + Seq::<Seq<char>>::empty() == all);
    assert(lines(unlines(Seq::<Seq<char>>::empty())).len() == 0);
    assert(all + lines(unlines(Seq::<Seq<char>>::empty())) == all);
    assert(lines(zeus_header(c, y_min_pos, y_max_pos)) == all);
    assert forall|k: int| 0 <= k < 5 implies #[trigger] values_of(all, s[k]) == values_of(b1, s[k])
        + values_of(b2, s[k]) + values_of(b3, s[k]) + values_of(b4, s[k]) + values_of(b5, s[k]) by {
        lemma_values_add(b0 + b1 + b2 + b3 + b4, b5, s[k]);
        lemma_values_add(b0 + b1 + b2 + b3, b4, s[k]);
        lemma_values_add(b0 + b1 + b2, b3, s[k]);
        lemma_values_add(b0 + b1, b2, s[k]);
        lemma_values_add(b0, b1, s[k]);
        lemma_values_of_comment(s[k]);
        assert(values_of(b0, s[k]) + values_of(b1, s[k]) == values_of(b1, s[k]));
    }
    lemma_block_values(c, home, y_min_pos, y_max_pos, 0);
    lemma_block_values(c, home, y_min_pos, y_max_pos, 1);
    lemma_block_values(c, home, y_min_pos, y_max_pos, 2);
    lemma_block_values(c, home, y_min_pos, y_max_pos, 3);
    lemma_block_values(c, home, y_min_pos, y_max_pos, 4);
    law_i32_reads_back(c.y_home_dir);
    assert(values_of(all, s[0]) == seq![home]);
    assert(values_of(all, s[1]) == seq![y_min_pos]);
    assert(values_of(all, s[2]) == seq![y_max_pos]);
}

/// What each block of the header gives to the symbol `k`.
proof fn lemma_block_values(
    c: ConfigView,
    home: Seq<char>,
    y_min_pos: Seq<char>,
    y_max_pos: Seq<char>,
    k: int,
)
    requires
        0 <= k < 5,
    ensures
        ({
            let s = symbols();
            let none = Seq::<Seq<char>>::empty();
            &&& values_of(define_lines(s[0], home), s[k]) == if k == 0 {
                seq![home]
            } else {
                none
            }
            &&& values_of(define_lines(s[1], y_min_pos), s[k]) == if k == 1 {
                seq![y_min_pos]
            } else {
                none
            }
            &&& values_of(define_lines(s[2], y_max_pos), s[k]) == if k == 2 {
                seq![y_max_pos]
            } else {
                none
            }
            &&& values_of(
                pin_lines(s[3], c.y_min_endstop_override, c.y_min_endstop_pin),
                s[k],
            ) == if k == 3 && c.y_min_endstop_override && !is_blank(c.y_min_endstop_pin) {
                seq![trim(c.y_min_endstop_pin)]
            } else {
                none
            }
            &&& values_of(
                pin_lines(s[4], c.y_max_endstop_override, c.y_max_endstop_pin),
                s[k],
            ) == if k == 4 && c.y_max_endstop_override && !is_blank(c.y_max_endstop_pin) {
                seq![trim(c.y_max_endstop_pin)]
            } else {
                none
            }
        }),
{
    let s = symbols();
    lemma_symbols();
    lemma_values_of_define(s[0], home, s[k]);
    lemma_values_of_define(s[1], y_min_pos, s[k]);
    lemma_values_of_define(s[2], y_max_pos, s[k]);
    lemma_values_of_define(s[3], trim(c.y_min_endstop_pin), s[k]);
    lemma_values_of_define(s[4], trim(c.y_max_endstop_pin), s[k]);
    assert(s[0] == s[k] <==> k == 0);
    assert(s[1] == s[k] <==> k == 1);
    assert(s[2] == s[k] <==> k == 2);
    assert(s[3] == s[k] <==> k == 3);
    assert(s[4] == s[k] <==> k == 4);
}

proof fn lemma_pin_plain(symbol: Seq<char>, on: bool, pin: Seq<char>)
    requires
        !symbol.contains('\n'),
        !symbol.contains(' '),
        symbol.len() > 0 && symbol.last() != '\r',
        !pin.contains('\n'),
    ensures
        forall|i: int|
            0 <= i < pin_lines(symbol, on, pin).len() ==> value_fits(
                #[trigger] pin_lines(symbol, on, pin)[i],
            ),
{
    lemma_trim_result(pin);
    if trim(pin).contains('\n') {
        lemma_trim_contains(pin, '\n');
    }
    lemma_define_plain(symbol, trim(pin));
}

pub proof fn lemma_all_plain(a: Seq<Seq<char>>, b: Seq<Seq<char>>)
    requires
        forall|i: int| 0 <= i < a.len() ==> value_fits(#[trigger] a[i]),
        forall|i: int| 0 <= i < b.len() ==> value_fits(#[trigger] b[i]),
    ensures
        forall|i: int| 0 <= i < (a + b).len() ==> value_fits(#[trigger] (a + b)[i]),
{
    assert forall|i: int| 0 <= i < (a + b).len() implies value_fits(#[trigger] (a + b)[i]) by {
        if i < a.len() {
            assert((a + b)[i] == a[i]);
        } else {
            assert((a + b)[i] == b[i - a.len()]);
        }
    }
}

/// Every symbol that is given a value has its earlier value taken away just
/// before: the lines ask for the symbol, undefine it, and end the question.
pub proof fn law_define_replaces(symbol: Seq<char>, value: Seq<char>)
    ensures
        ({
            let ls = define_lines(symbol, value);
            &&& ls.len() == 5
            &&& ls[0].len() == 0
            &&& ls[1] == seq!['#', 'i', 'f', 'd', 'e', 'f', ' '] + symbol
            &&& ls[2] == seq!['#', ' ', ' ', 'u', 'n', 'd', 'e', 'f', ' '] + symbol
            &&& ls[3] == seq!['#', 'e', 'n', 'd', 'i', 'f']
            &&& ls[4] == define_head(symbol) + value
        }),
{
    reveal_strlit("");
    reveal_strlit("#ifdef ");
    reveal_strlit("#  undef ");
    reveal_strlit("#endif");
    reveal_strlit("#define ");
    reveal_strlit(" ");
    assert("#ifdef "@ == seq!['#', 'i', 'f', 'd', 'e', 'f', ' ']);
    assert("#  undef "@ == seq!['#', ' ', ' ', 'u', 'n', 'd', 'e', 'f', ' ']);
    assert("#endif"@ == seq!['#', 'e', 'n', 'd', 'i', 'f']);
    assert("#define "@ == seq!['#', 'd', 'e', 'f', 'i', 'n', 'e', ' ']);
    assert(" "@ == seq![' ']);
}

/// The line that the patch adds names the file that the header is written to,
/// and that file stands beside the one that is patched.
pub proof fn law_patch_names_the_header(v: AppView)
    ensures
        include_line() == "#include \""@ + header_path(v).last() + "\""@,
        header_path(v).drop_last() == configuration_path(v).drop_last(),
        header_path(v) != configuration_path(v),
        header_path(v)[0] == v.firmware_dir,
        config_path(v)[0] == v.firmware_dir,
        config_path(v).len() == 2,
{
    reveal_strlit("#include \"Configuration_Zeus.h\"");
    reveal_strlit("#include \"");
    reveal_strlit("Configuration_Zeus.h");
    reveal_strlit("Configuration.h");
    reveal_strlit("\"");
    let h = header_path(v);
    let k = configuration_path(v);
    assert(h.last() == "Configuration_Zeus.h"@);
    assert(include_line() == "#include \""@ + h.last() + "\""@);
    assert(h.drop_last() == k.drop_last());
    assert(h[2] != k[2]) by {
        assert(h[2].len() != k[2].len());
    }
}

/// The build's own output is reported line by line: a line that is not blank is
/// marked and kept as it is, a blank one is left out.
pub proof fn law_report_lines(line: Seq<char>, rest: Seq<char>)
    requires
        !line.contains('\n'),
    ensures
        report_lines(Seq::empty()).len() == 0,
        report_lines(line + seq!['\n'] + rest) == if is_blank(line) {
            report_lines(rest)
        } else {
            seq![seq!['[', 'p', 'i', 'o', ']', ' '] + strip_cr(line)] + report_lines(rest)
        },
{
    reveal(Seq::filter);
    reveal_strlit("[pio] ");
    assert("[pio] "@ == seq!['[', 'p', 'i', 'o', ']', ' ']);
    let keep = |l: Seq<char>| !is_blank(l);
    let mark = |l: Seq<char>| "[pio] "@ + l;
    let first = strip_cr(line);
    law_lines(line, rest);
    lemma_lines_front(line, rest);
    lemma_trim_strip_cr(line);
    assert(is_blank(first) == is_blank(line));
    let one = seq![first];
    Seq::filter_distributes_over_add(one, lines(rest), keep);
    assert(one.drop_last().filter(keep) == Seq::<Seq<char>>::empty());
    let tail = lines(rest).filter(keep);
    if is_blank(line) {
        assert(one.filter(keep) == Seq::<Seq<char>>::empty());
        assert(one.filter(keep) + tail == tail);
    } else {
        assert(one.filter(keep) == one);
        assert((one + tail).map_values(mark) == seq![mark(first)] + tail.map_values(mark));
    }
    assert(lines(Seq::<char>::empty()).filter(keep) == Seq::<Seq<char>>::empty());
}

/// A report is what the tool printed, first the one output and then the other,
/// and one line more on how it ended: a check mark for success, and for failure
/// a cross with the exit status.
pub proof fn law_build_report(
    stdout: Seq<char>,
    stderr: Seq<char>,
    success: bool,
    status: Seq<char>,
)
    ensures
        ({
            let r = build_report_spec(stdout, stderr, success, status);
            &&& r.drop_last() == report_lines(stdout) + report_lines(stderr)
            &&& success <==> r.last().contains('✓') && !r.last().contains('✗')
            &&& !success ==> r.last().contains('✗') && contains(r.last(), status)
        }),
{
    reveal_strlit("[pio] ✓ Flash complete.");
    reveal_strlit("[pio] ✗ Build failed (exit ");
    let r = build_report_spec(stdout, stderr, success, status);
    let good = "[pio] ✓ Flash complete."@;
    let bad = "[pio] ✗ Build failed (exit "@ + status + ")."@;
    assert(r.drop_last() == report_lines(stdout) + report_lines(stderr));
    assert(good[6] == '✓');
    assert(bad[6] == '✗');
    lemma_contains_middle("[pio] ✗ Build failed (exit "@, status, ")."@);
}

/// A tool that could not be launched is reported with its error, and with a
/// hint, both marked.
pub proof fn law_launch_failed(error: Seq<char>)
    ensures
        launch_failed_lines(error).len() == 2,
        contains(launch_failed_lines(error)[0], error),
        launch_failed_lines(error)[0].skip(28) == error,
{
    reveal_strlit("[pio] Failed to launch pio: ");
    lemma_contains_middle("[pio] Failed to launch pio: "@, error, Seq::empty());
    assert("[pio] Failed to launch pio: "@ + error + Seq::<char>::empty()
        == "[pio] Failed to launch pio: "@ + error);
    assert(("[pio] Failed to launch pio: "@ + error).skip(28) == error);
}

} // verus!
