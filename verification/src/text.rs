//! Formateo de números en texto: decimal alineado a derecha y hexadecimal
//! de dos cifras.
use vstd::prelude::*;

verus! {

/// Texto de una cifra decimal.
pub open spec fn digit_str(d: nat) -> Seq<char> {
    if d == 0 {
        "0"@
    } else if d == 1 {
        "1"@
    } else if d == 2 {
        "2"@
    } else if d == 3 {
        "3"@
    } else if d == 4 {
        "4"@
    } else if d == 5 {
        "5"@
    } else if d == 6 {
        "6"@
    } else if d == 7 {
        "7"@
    } else if d == 8 {
        "8"@
    } else {
        "9"@
    }
}

/// Texto de una cifra hexadecimal en mayúscula.
pub open spec fn hex_digit_str(d: nat) -> Seq<char> {
    if d < 10 {
        digit_str(d)
    } else if d == 10 {
        "A"@
    } else if d == 11 {
        "B"@
    } else if d == 12 {
        "C"@
    } else if d == 13 {
        "D"@
    } else if d == 14 {
        "E"@
    } else {
        "F"@
    }
}

/// Representación decimal de `n`, sin ceros a la izquierda.
pub open spec fn dec_str(n: nat) -> Seq<char>
    decreases n,
{
    if n < 10 {
        digit_str(n)
    } else {
        dec_str(n / 10) + digit_str(n % 10)
    }
}

/// `k` espacios.
pub open spec fn spaces(k: nat) -> Seq<char>
    decreases k,
{
    if k == 0 {
        Seq::empty()
    } else {
        spaces((k - 1) as nat) + " "@
    }
}

/// `s` alineado a la derecha en un campo de `width` caracteres.
pub open spec fn pad_left(s: Seq<char>, width: nat) -> Seq<char> {
    if s.len() >= width {
        s
    } else {
        spaces((width - s.len()) as nat) + s
    }
}

/// Representación decimal de un entero con signo.
pub open spec fn int_str(i: int) -> Seq<char> {
    if i < 0 {
        "-"@ + dec_str((-i) as nat)
    } else {
        dec_str(i as nat)
    }
}

/// Dos cifras hexadecimales en mayúscula (como `{:02X}` sobre un byte).
pub open spec fn hex2(b: u8) -> Seq<char> {
    hex_digit_str((b / 16) as nat) + hex_digit_str((b % 16) as nat)
}

proof fn lemma_digit_len(d: nat)
    ensures
        digit_str(d).len() == 1,
{
    reveal_strlit("0");
    reveal_strlit("1");
    reveal_strlit("2");
    reveal_strlit("3");
    reveal_strlit("4");
    reveal_strlit("5");
    reveal_strlit("6");
    reveal_strlit("7");
    reveal_strlit("8");
    reveal_strlit("9");
}

fn append_digit(s: &mut String, d: u32)
    requires
        d < 10,
    ensures
        final(s)@ == old(s)@ + digit_str(d as nat),
{
    if d == 0 {
        s.append("0");
    } else if d == 1 {
        s.append("1");
    } else if d == 2 {
        s.append("2");
    } else if d == 3 {
        s.append("3");
    } else if d == 4 {
        s.append("4");
    } else if d == 5 {
        s.append("5");
    } else if d == 6 {
        s.append("6");
    } else if d == 7 {
        s.append("7");
    } else if d == 8 {
        s.append("8");
    } else {
        s.append("9");
    }
}

fn append_hex_digit(s: &mut String, d: u8)
    requires
        d < 16,
    ensures
        final(s)@ == old(s)@ + hex_digit_str(d as nat),
{
    if d < 10 {
        append_digit(s, d as u32);
    } else if d == 10 {
        s.append("A");
    } else if d == 11 {
        s.append("B");
    } else if d == 12 {
        s.append("C");
    } else if d == 13 {
        s.append("D");
    } else if d == 14 {
        s.append("E");
    } else {
        s.append("F");
    }
}

fn append_dec(s: &mut String, n: u32)
    ensures
        final(s)@ == old(s)@ + dec_str(n as nat),
    decreases n,
{
    if n >= 10 {
        append_dec(s, n / 10);
        append_digit(s, n % 10);
        assert(s@ =~= old(s)@ + dec_str(n as nat));
    } else {
        append_digit(s, n);
    }
}

fn dec_len(n: u32) -> (len: usize)
    ensures
        len == dec_str(n as nat).len(),
        1 <= len <= n as int + 1,
    decreases n,
{
    proof {
        lemma_digit_len((n % 10) as nat);
        lemma_digit_len(n as nat);
    }
    if n >= 10 {
        dec_len(n / 10) + 1
    } else {
        1
    }
}

fn append_spaces(s: &mut String, k: usize)
    ensures
        final(s)@ == old(s)@ + spaces(k as nat),
{
    let mut i: usize = 0;
    while i < k
        invariant
            i <= k,
            s@ == old(s)@ + spaces(i as nat),
        decreases k - i,
    {
        s.append(" ");
        i = i + 1;
        assert(s@ =~= old(s)@ + spaces(i as nat));
    }
}

/// Agrega `n` en decimal, alineado a la derecha en `width` caracteres.
pub fn append_dec_padded(s: &mut String, n: u32, width: usize)
    ensures
        final(s)@ == old(s)@ + pad_left(dec_str(n as nat), width as nat),
{
    let len = dec_len(n);
    if len < width {
        append_spaces(s, width - len);
    }
    append_dec(s, n);
    assert(s@ =~= old(s)@ + pad_left(dec_str(n as nat), width as nat));
}

/// Agrega `v` en decimal con signo, alineado a la derecha en `width`
/// caracteres (el signo cuenta dentro del ancho).
pub fn append_int_padded(s: &mut String, v: i32, width: usize)
    requires
        v > i32::MIN,
    ensures
        final(s)@ == old(s)@ + pad_left(int_str(v as int), width as nat),
{
    proof {
        reveal_strlit("-");
    }
    if v < 0 {
        let m: u32 = (-v) as u32;
        let len = dec_len(m) + 1;
        if len < width {
            append_spaces(s, width - len);
        }
        s.append("-");
        append_dec(s, m);
    } else {
        let m: u32 = v as u32;
        let len = dec_len(m);
        if len < width {
            append_spaces(s, width - len);
        }
        append_dec(s, m);
    }
    assert(s@ =~= old(s)@ + pad_left(int_str(v as int), width as nat));
}

/// Agrega el byte en dos cifras hexadecimales en mayúscula.
pub fn append_hex2(s: &mut String, b: u8)
    ensures
        final(s)@ == old(s)@ + hex2(b),
{
    append_hex_digit(s, b / 16);
    append_hex_digit(s, b % 16);
    assert(s@ =~= old(s)@ + hex2(b));
}

} // verus!
