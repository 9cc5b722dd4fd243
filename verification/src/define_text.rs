use vstd::prelude::*;
use crate::bytes::push_all;
use crate::registry::WasmEntry;

verus! {

/// The decimal digits of `n`, as ASCII.
pub open spec fn decimal(n: nat) -> Seq<u8>
    decreases n,
{
    if n < 10 {
        seq![(48 + n) as u8]
    } else {
        decimal(n / 10) + seq![(48 + n % 10) as u8]
    }
}

/// The number that a string of ASCII decimal digits denotes.
pub open spec fn digits_value(s: Seq<u8>) -> nat
    decreases s.len(),
{
    if s.len() == 0 {
        0
    } else {
        digits_value(s.drop_last()) * 10 + (s.last() - 48) as nat
    }
}

/// Every byte of `decimal(n)` is an ASCII digit, and the digits read back as `n`.
pub proof fn lemma_decimal_reads_back(n: nat)
    ensures
        forall|i: int| 0 <= i < decimal(n).len() ==> 48 <= #[trigger] decimal(n)[i] <= 57,
        digits_value(decimal(n)) == n,
    decreases n,
{
    if n >= 10 {
        lemma_decimal_reads_back(n / 10);
        let d = decimal(n);
        assert(d.drop_last() =~= decimal(n / 10));
        assert(d.last() == (48 + n % 10) as u8);
        assert((d.last() - 48) as nat == n % 10);
        assert(digits_value(d) == digits_value(decimal(n / 10)) * 10 + n % 10);
        assert(n == (n / 10) * 10 + n % 10) by (nonlinear_arith);
    } else {
        let d = decimal(n);
        assert(d.drop_last() =~= Seq::<u8>::empty());
        assert(d.last() == (48 + n) as u8);
        assert(digits_value(d) == digits_value(d.drop_last()) * 10 + (d.last() - 48) as nat);
    }
}

/// The decimal forms of the bytes of `s`, separated by `", "`.
pub open spec fn joined_decimals(s: Seq<u8>) -> Seq<u8>
    decreases s.len(),
{
    if s.len() == 0 {
        seq![]
    } else if s.len() == 1 {
        decimal(s[0] as nat)
    } else {
        joined_decimals(s.drop_last()) + seq![44u8, 32u8] + decimal(s.last() as nat)
    }
}

/// A byte string as Rust's `Debug` prints a byte slice: `[1, 2, 3]`.
pub open spec fn debug_bytes(s: Seq<u8>) -> Seq<u8> {
    seq![91u8] + joined_decimals(s) + seq![93u8]
}

/// The text of one module in the module table:
/// `(` identity `,` binary `,` binary length `,` name `)`.
pub open spec fn entry_text(e: WasmEntry) -> Seq<u8> {
    seq![40u8] + debug_bytes(e.id@) + seq![44u8] + debug_bytes(e.bytes@) + seq![44u8] + decimal(
        e.bytes@.len(),
    ) + seq![44u8] + e.name@ + seq![41u8]
}

/// In the text of a module, the field written after the binary is a run of
/// ASCII decimal digits that reads back as the binary's full length in bytes,
/// whatever that length.
pub proof fn lemma_entry_length_field(e: WasmEntry)
    ensures
        exists|digits: Seq<u8>|
            {
                &&& digits.len() > 0
                &&& forall|i: int| 0 <= i < digits.len() ==> 48 <= #[trigger] digits[i] <= 57
                &&& digits_value(digits) == e.bytes@.len()
                &&& entry_text(e) == seq![40u8] + debug_bytes(e.id@) + seq![44u8] + debug_bytes(
                    e.bytes@,
                ) + seq![44u8] + digits + seq![44u8] + e.name@ + seq![41u8]
            },
{
    let digits = decimal(e.bytes@.len());
    lemma_decimal_reads_back(e.bytes@.len());
    lemma_decimal_nonempty(e.bytes@.len());
    assert(entry_text(e) == seq![40u8] + debug_bytes(e.id@) + seq![44u8] + debug_bytes(e.bytes@)
        + seq![44u8] + digits + seq![44u8] + e.name@ + seq![41u8]);
}

/// The `Debug` form of a byte string grows one element at a time: the empty
/// string prints as `[]`, a single byte as its decimal form in brackets, and
/// appending a byte to a non-empty string inserts `, ` and the byte's decimal
/// form before the closing bracket.
pub proof fn lemma_debug_bytes_push(s: Seq<u8>, b: u8)
    ensures
        debug_bytes(Seq::<u8>::empty()) == seq![91u8, 93u8],
        debug_bytes(seq![b]) == seq![91u8] + decimal(b as nat) + seq![93u8],
        s.len() > 0 ==> debug_bytes(s.push(b)) == debug_bytes(s).drop_last() + seq![44u8, 32u8]
            + decimal(b as nat) + seq![93u8],
{
    assert(debug_bytes(Seq::<u8>::empty()) =~= seq![91u8, 93u8]);
    assert(seq![b][0] == b);
    assert(debug_bytes(seq![b]) =~= seq![91u8] + decimal(b as nat) + seq![93u8]);
    if s.len() > 0 {
        let t = s.push(b);
        assert(t.drop_last() =~= s);
        assert(t.last() == b);
        assert(debug_bytes(s).drop_last() =~= seq![91u8] + joined_decimals(s));
        assert(debug_bytes(t) =~= debug_bytes(s).drop_last() + seq![44u8, 32u8] + decimal(b as nat)
            + seq![93u8]);
    }
}

/// The module list grows one module at a time: a single module is listed by
/// its own text, and appending a module to a non-empty list adds `,` and the
/// module's text at the end; no module is dropped or reordered.
pub proof fn lemma_entries_text_push(es: Seq<WasmEntry>, e: WasmEntry)
    ensures
        entries_text(Seq::<WasmEntry>::empty()) == Seq::<u8>::empty(),
        entries_text(seq![e]) == entry_text(e),
        es.len() > 0 ==> entries_text(es.push(e)) == entries_text(es) + seq![44u8] + entry_text(e),
{
    assert(seq![e][0] == e);
    if es.len() > 0 {
        let t = es.push(e);
        assert(t.drop_last() =~= es);
        assert(t.last() == e);
    }
}

/// The decimal form of a number has at least one digit.
pub proof fn lemma_decimal_nonempty(n: nat)
    ensures
        decimal(n).len() > 0,
    decreases n,
{
    if n >= 10 {
        lemma_decimal_nonempty(n / 10);
    }
}

/// The texts of the modules, separated by `,`.
pub open spec fn entries_text(es: Seq<WasmEntry>) -> Seq<u8>
    decreases es.len(),
{
    if es.len() == 0 {
        seq![]
    } else if es.len() == 1 {
        entry_text(es[0])
    } else {
        entries_text(es.drop_last()) + seq![44u8] + entry_text(es.last())
    }
}

/// `use crate::define_wasm;` and a line break.
pub open spec fn define_header() -> Seq<u8> {
    seq![
        117u8, 115u8, 101u8, 32u8, 99u8, 114u8, 97u8, 116u8, 101u8, 58u8, 58u8, 100u8, 101u8,
        102u8, 105u8, 110u8, 101u8, 95u8, 119u8, 97u8, 115u8, 109u8, 59u8, 10u8,
    ]
}

/// `define_wasm!(`.
pub open spec fn define_open() -> Seq<u8> {
    seq![100u8, 101u8, 102u8, 105u8, 110u8, 101u8, 95u8, 119u8, 97u8, 115u8, 109u8, 33u8, 40u8]
}

/// The module table source: the header, then `define_wasm!(`, the modules and `);`.
pub open spec fn define_file_text(es: Seq<WasmEntry>) -> Seq<u8> {
    define_header() + define_open() + entries_text(es) + seq![41u8, 59u8]
}

/// Appends the decimal digits of `n`.
pub fn push_decimal(out: &mut Vec<u8>, n: usize)
    ensures
        final(out)@ == old(out)@ + decimal(n as nat),
    decreases n,
{
    if n >= 10 {
        push_decimal(out, n / 10);
    }
    let digit = (48 + n % 10) as u8;
    out.push(digit);
    assert(out@ =~= old(out)@ + decimal(n as nat));
}

/// Appends the `Debug` form of a byte slice: `[1, 2, 3]`.
pub fn push_debug_bytes(out: &mut Vec<u8>, s: &[u8])
    ensures
        final(out)@ == old(out)@ + debug_bytes(s@),
{
    out.push(91u8);
    let mut i: usize = 0;
    while i < s.len()
        invariant
            i <= s@.len(),
            out@ == old(out)@ + seq![91u8] + joined_decimals(s@.subrange(0, i as int)),
        decreases s@.len() - i,
    {
        let ghost before = out@;
        if i > 0 {
            out.push(44u8);
            out.push(32u8);
        }
        push_decimal(out, s[i] as usize);
        proof {
            let t = s@.subrange(0, i + 1);
            assert(t.drop_last() =~= s@.subrange(0, i as int));
            assert(t.last() == s@[i as int]);
            if i == 0 {
                assert(t.len() == 1);
            }
        }
        i = i + 1;
        assert(out@ =~= old(out)@ + seq![91u8] + joined_decimals(s@.subrange(0, i as int)));
    }
    assert(s@.subrange(0, s@.len() as int) =~= s@);
    out.push(93u8);
    assert(out@ =~= old(out)@ + debug_bytes(s@));
}

/// Appends the text of one module.
pub fn push_entry_text(out: &mut Vec<u8>, e: &WasmEntry)
    ensures
        final(out)@ == old(out)@ + entry_text(*e),
{
    out.push(40u8);
    push_debug_bytes(out, e.id.as_slice());
    out.push(44u8);
    push_debug_bytes(out, e.bytes.as_slice());
    out.push(44u8);
    push_decimal(out, e.bytes.len());
    out.push(44u8);
    push_all(out, e.name.as_slice());
    out.push(41u8);
    assert(out@ =~= old(out)@ + entry_text(*e));
}

/// The module table source for `entries`, as the build step writes it.
pub fn render_define_file(entries: &Vec<WasmEntry>) -> (text: Vec<u8>)
    ensures
        text@ == define_file_text(entries@),
{
    let mut out: Vec<u8> = vec![
        117u8, 115u8, 101u8, 32u8, 99u8, 114u8, 97u8, 116u8, 101u8, 58u8, 58u8, 100u8, 101u8,
        102u8, 105u8, 110u8, 101u8, 95u8, 119u8, 97u8, 115u8, 109u8, 59u8, 10u8,
    ];
    let open = vec![100u8, 101u8, 102u8, 105u8, 110u8, 101u8, 95u8, 119u8, 97u8, 115u8, 109u8, 33u8, 40u8];
    assert(out@ =~= define_header());
    assert(open@ =~= define_open());
    push_all(&mut out, open.as_slice());
    let ghost prefix = out@;
    let mut i: usize = 0;
    while i < entries.len()
        invariant
            i <= entries@.len(),
            prefix == define_header() + define_open(),
            out@ == prefix + entries_text(entries@.subrange(0, i as int)),
        decreases entries@.len() - i,
    {
        if i > 0 {
            out.push(44u8);
        }
        push_entry_text(&mut out, &entries[i]);
        proof {
            let t = entries@.subrange(0, i + 1);
            assert(t.drop_last() =~= entries@.subrange(0, i as int));
            assert(t.last() == entries@[i as int]);
            if i == 0 {
                assert(t.len() == 1);
            }
        }
        i = i + 1;
        assert(out@ =~= prefix + entries_text(entries@.subrange(0, i as int)));
    }
    assert(entries@.subrange(0, entries@.len() as int) =~= entries@);
    out.push(41u8);
    out.push(59u8);
    assert(out@ =~= define_file_text(entries@));
    out
}

} // verus!
