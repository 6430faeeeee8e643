//! Diagnostic rendering: a segment as one short line of text, for logs
//! only — never for the wire format.

use crate::model::TcpView;
use vstd::prelude::*;

verus! {

/// The decimal digit character for `d` (`d <= 9`).
pub open spec fn dec_digit(d: nat) -> char {
    if d == 0 {
        '0'
    } else if d == 1 {
        '1'
    } else if d == 2 {
        '2'
    } else if d == 3 {
        '3'
    } else if d == 4 {
        '4'
    } else if d == 5 {
        '5'
    } else if d == 6 {
        '6'
    } else if d == 7 {
        '7'
    } else if d == 8 {
        '8'
    } else {
        '9'
    }
}

/// The decimal rendering of `n`, most significant digit first, without
/// leading zeros (`0` renders as `"0"`).
pub open spec fn dec_seq(n: nat) -> Seq<char>
    decreases n,
{
    if n < 10 {
        seq![dec_digit(n)]
    } else {
        dec_seq(n / 10) + seq![dec_digit(n % 10)]
    }
}

/// The fixed-width flag summary: one dedicated slot each for ACK, RST, SYN
/// and FIN, rendered as the flag's letter when set and `.` otherwise, with
/// `-` in the unused slots.
pub open spec fn flag_summary(t: TcpView) -> Seq<char> {
    seq![
        '[',
        '-',
        if t.is_ack() {
            'A'
        } else {
            '.'
        },
        '-',
        if t.is_rst() {
            'R'
        } else {
            '.'
        },
        if t.is_syn() {
            'S'
        } else {
            '.'
        },
        if t.is_fin() {
            'F'
        } else {
            '.'
        },
        ']',
    ]
}

/// The whole diagnostic line: layer tag, ports, flag summary.
pub open spec fn spec_describe(t: TcpView) -> Seq<char> {
    "TCP: "@ + dec_seq(t.layer.source as nat) + " -> "@ + dec_seq(
        t.layer.destination as nat,
    ) + " "@ + flag_summary(t)
}

/// Appends the decimal rendering of `n`.
pub(crate) fn push_decimal(s: &mut String, n: u16)
    ensures
        final(s)@ == old(s)@ + dec_seq(n as nat),
    decreases n,
{
    if n >= 10 {
        push_decimal(s, n / 10);
    }
    let d = n % 10;
    if d == 0 {
        s.append("0");
        proof {
            reveal_strlit("0");
        }
    } else if d == 1 {
        s.append("1");
        proof {
            reveal_strlit("1");
        }
    } else if d == 2 {
        s.append("2");
        proof {
            reveal_strlit("2");
        }
    } else if d == 3 {
        s.append("3");
        proof {
            reveal_strlit("3");
        }
    } else if d == 4 {
        s.append("4");
        proof {
            reveal_strlit("4");
        }
    } else if d == 5 {
        s.append("5");
        proof {
            reveal_strlit("5");
        }
    } else if d == 6 {
        s.append("6");
        proof {
            reveal_strlit("6");
        }
    } else if d == 7 {
        s.append("7");
        proof {
            reveal_strlit("7");
        }
    } else if d == 8 {
        s.append("8");
        proof {
            reveal_strlit("8");
        }
    } else {
        s.append("9");
        proof {
            reveal_strlit("9");
        }
    }
    proof {
        assert(s@ =~= old(s)@ + dec_seq(n as nat));
    }
}

} // verus!
