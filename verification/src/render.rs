use vstd::prelude::*;

use crate::value::Value;

verus! {

pub open spec fn digit_char(d: nat) -> char {
    if d == 0 {
        '0'
    } else if d == 1 {
        '1'
    } else if d == 2 {
        '2'
    } else if d == 3 {
        '3'
    } else if d == 4 {
        '4'
    } else if d == 5 {
        '5'
    } else if d == 6 {
        '6'
    } else if d == 7 {
        '7'
    } else if d == 8 {
        '8'
    } else {
        '9'
    }
}

/// Decimal digits of `n`, most significant first, no leading zeros
/// (a single `'0'` for zero).
pub open spec fn dec_digits(n: nat) -> Seq<char>
    decreases n,
{
    if n < 10 {
        seq![digit_char(n)]
    } else {
        dec_digits(n / 10) + seq![digit_char(n % 10)]
    }
}

/// Decimal rendering of a signed integer.
pub open spec fn int_chars(v: int) -> Seq<char> {
    if v >= 0 {
        dec_digits(v as nat)
    } else {
        seq!['-'] + dec_digits((-v) as nat)
    }
}

/// How a cell reads inside a mismatch sample.
pub open spec fn render_val(v: Value) -> Seq<char> {
    match v {
        Value::Null => "null"@,
        Value::Int(x) => int_chars(x as int),
        Value::Bool(bb) => if bb {
            "true"@
        } else {
            "false"@
        },
        Value::Str(s) => s@,
    }
}

fn digit_str(d: u64) -> (s: &'static str)
    requires
        d < 10,
    ensures
        s@ == seq![digit_char(d as nat)],
{
    if d == 0 {
        proof {
            reveal_strlit("0");
            assert("0"@ =~= seq![digit_char(0)]);
        }
        "0"
    } else if d == 1 {
        proof {
            reveal_strlit("1");
            assert("1"@ =~= seq![digit_char(1)]);
        }
        "1"
    } else if d == 2 {
        proof {
            reveal_strlit("2");
            assert("2"@ =~= seq![digit_char(2)]);
        }
        "2"
    } else if d == 3 {
        proof {
            reveal_strlit("3");
            assert("3"@ =~= seq![digit_char(3)]);
        }
        "3"
    } else if d == 4 {
        proof {
            reveal_strlit("4");
            assert("4"@ =~= seq![digit_char(4)]);
        }
        "4"
    } else if d == 5 {
        proof {
            reveal_strlit("5");
            assert("5"@ =~= seq![digit_char(5)]);
        }
        "5"
    } else if d == 6 {
        proof {
            reveal_strlit("6");
            assert("6"@ =~= seq![digit_char(6)]);
        }
        "6"
    } else if d == 7 {
        proof {
            reveal_strlit("7");
            assert("7"@ =~= seq![digit_char(7)]);
        }
        "7"
    } else if d == 8 {
        proof {
            reveal_strlit("8");
            assert("8"@ =~= seq![digit_char(8)]);
        }
        "8"
    } else {
        proof {
            reveal_strlit("9");
            assert("9"@ =~= seq![digit_char(9 as nat)]);
        }
        "9"
    }
}

/// Digit values collected least significant first, read back as the
/// characters of the number, most significant first.
pub open spec fn rev_digit_chars(ds: Seq<u64>) -> Seq<char> {
    Seq::new(ds.len(), |k: int| digit_char(ds[ds.len() - 1 - k] as nat))
}

proof fn lemma_rev_push(ds: Seq<u64>, d: u64)
    ensures
        rev_digit_chars(ds.push(d)) =~= seq![digit_char(d as nat)] + rev_digit_chars(ds),
{
}

/// Appends the decimal rendering of `n`.
#[verifier::loop_isolation(false)]
fn push_u64(s: &mut String, n: u64)
    ensures
        final(s)@ == old(s)@ + dec_digits(n as nat),
{
    let mut ds: Vec<u64> = Vec::new();
    let mut m: u64 = n;
    ds.push(m % 10);
    m = m / 10;
    proof {
        lemma_rev_push(Seq::<u64>::empty(), n % 10);
        if n < 10 {
            assert(rev_digit_chars(ds@) =~= dec_digits(n as nat));
        } else {
            assert(dec_digits(n as nat) =~= dec_digits(m as nat) + rev_digit_chars(ds@));
        }
    }
    while m != 0
        invariant
            ds@.len() >= 1,
            forall|k: int| 0 <= k < ds@.len() ==> ds@[k] < 10,
            if m == 0 {
                dec_digits(n as nat) =~= rev_digit_chars(ds@)
            } else {
                dec_digits(n as nat) =~= dec_digits(m as nat) + rev_digit_chars(ds@)
            },
        decreases m,
    {
        let d = m % 10;
        let ghost ds0 = ds@;
        let ghost m0 = m;
        ds.push(d);
        m = m / 10;
        proof {
            lemma_rev_push(ds0, d);
            if m0 < 10 {
                assert(dec_digits(m0 as nat) =~= seq![digit_char((m0 % 10) as nat)]);
                assert(dec_digits(n as nat) =~= rev_digit_chars(ds@));
            } else {
                assert(dec_digits(m0 as nat) == dec_digits((m0 / 10) as nat) + seq![
                    digit_char((m0 % 10) as nat),
                ]);
                assert(dec_digits(n as nat) =~= dec_digits(m as nat) + rev_digit_chars(ds@));
            }
        }
    }
    let ghost base = s@;
    let ghost chars = rev_digit_chars(ds@);
    let mut q: usize = 0;
    while q < ds.len()
        invariant
            0 <= q <= ds@.len(),
            forall|k: int| 0 <= k < ds@.len() ==> ds@[k] < 10,
            s@ == base + chars.take(q as int),
        decreases ds@.len() - q,
    {
        let d = ds[ds.len() - 1 - q];
        s.append(digit_str(d));
        proof {
            assert(chars.take(q + 1) =~= chars.take(q as int).push(chars[q as int]));
            assert(s@ =~= base + chars.take(q + 1));
        }
        q += 1;
    }
    proof {
        assert(chars.take(ds@.len() as int) =~= chars);
        assert(s@ =~= base + dec_digits(n as nat));
    }
}

/// Appends the decimal rendering of `v`, with a leading minus sign for
/// negative values.
fn push_i64(s: &mut String, v: i64)
    ensures
        final(s)@ == old(s)@ + int_chars(v as int),
{
    if v >= 0 {
        push_u64(s, v as u64);
    } else {
        let ghost base = s@;
        s.append("-");
        let dw: i128 = -(v as i128);
        let mag: u64 = dw as u64;
        push_u64(s, mag);
        proof {
            reveal_strlit("-");
            assert("-"@ =~= seq!['-']);
            assert(mag as nat == (-(v as int)) as nat);
            assert(s@ =~= base + int_chars(v as int));
        }
    }
}

/// Appends the sample rendering of one cell.
pub fn push_value(s: &mut String, v: &Value)
    ensures
        final(s)@ == old(s)@ + render_val(*v),
{
    match v {
        Value::Null => {
            s.append("null");
        },
        Value::Int(x) => {
            push_i64(s, *x);
        },
        Value::Bool(bb) => {
            if *bb {
                s.append("true");
            } else {
                s.append("false");
            }
        },
        Value::Str(st) => {
            s.append(st.as_str());
        },
    }
}

/// Space-joined `key: value` pairs in key-column order, describing the
/// key of one sampled row; `t` is the first key column still to print.
pub open spec fn key_desc_chars(row: Vec<Value>, keys: Seq<String>, ka: Seq<usize>, t: int) -> Seq<
    char,
>
    decreases keys.len() - t,
{
    if t < 0 || t >= keys.len() {
        Seq::empty()
    } else {
        keys[t]@ + ": "@ + render_val(row@[ka[t] as int]) + (if t + 1 < keys.len() {
            " "@ + key_desc_chars(row, keys, ka, t + 1)
        } else {
            Seq::empty()
        })
    }
}

fn key_desc_from(row: &Vec<Value>, keys: &Vec<String>, ka: &Vec<usize>, t: usize) -> (s: String)
    requires
        ka@.len() == keys@.len(),
        forall|q: int| 0 <= q < ka@.len() ==> ka@[q] < row@.len(),
    ensures
        s@ == key_desc_chars(*row, keys@, ka@, t as int),
    decreases keys@.len() - t,
{
    if t >= keys.len() {
        let s = String::new();
        proof {
            assert(s@ =~= key_desc_chars(*row, keys@, ka@, t as int));
        }
        s
    } else {
        let mut s = String::new();
        s.append(keys[t].as_str());
        s.append(": ");
        push_value(&mut s, &row[ka[t]]);
        if t + 1 < keys.len() {
            s.append(" ");
            let rest = key_desc_from(row, keys, ka, t + 1);
            s.append(rest.as_str());
        }
        proof {
            assert(s@ =~= key_desc_chars(*row, keys@, ka@, t as int));
        }
        s
    }
}

/// Formats the key of one sampled row, space-joined in key-column order.
pub fn key_desc(row: &Vec<Value>, keys: &Vec<String>, ka: &Vec<usize>) -> (s: String)
    requires
        ka@.len() == keys@.len(),
        forall|q: int| 0 <= q < ka@.len() ==> ka@[q] < row@.len(),
    ensures
        s@ == key_desc_chars(*row, keys@, ka@, 0),
{
    key_desc_from(row, keys, ka, 0)
}

/// `before -> after` rendering of one changed cell.
pub open spec fn change_chars(va: Value, vb: Value) -> Seq<char> {
    render_val(va) + " -> "@ + render_val(vb)
}

/// Formats one changed cell as `before -> after`.
pub fn change_str(va: &Value, vb: &Value) -> (s: String)
    ensures
        s@ == change_chars(*va, *vb),
{
    let mut s = String::new();
    push_value(&mut s, va);
    s.append(" -> ");
    push_value(&mut s, vb);
    proof {
        assert(s@ =~= change_chars(*va, *vb));
    }
    s
}

} // verus!
