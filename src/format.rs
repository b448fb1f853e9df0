use vstd::prelude::*;

verus! {

/// The character of a decimal digit.
pub open spec fn digit_char(d: nat) -> char {
    (48 + d) as char
}

/// Decimal rendering of a natural number, most significant digit first.
pub open spec fn decimal(n: nat) -> Seq<char>
    decreases n,
{
    if n < 10 {
        seq![digit_char(n)]
    } else {
        decimal(n / 10).push(digit_char(n % 10))
    }
}

/// Decimal rendering of an integer, with a leading minus sign when negative.
pub open spec fn signed_decimal(i: int) -> Seq<char> {
    if i < 0 {
        seq!['-'] + decimal((-i) as nat)
    } else {
        decimal(i as nat)
    }
}

/// A token between double quotes.
pub open spec fn quoted(s: Seq<char>) -> Seq<char> {
    seq!['"'] + s + seq!['"']
}

/// The parameters of a command, each preceded by a comma.
pub open spec fn joined_params(params: Seq<Seq<char>>) -> Seq<char>
    decreases params.len(),
{
    if params.len() == 0 {
        Seq::empty()
    } else {
        joined_params(params.drop_last()) + seq![','] + params.last()
    }
}

/// One line of command text: `AT*<name>=<seq>[,<param>]*` and a carriage return.
pub open spec fn command_line(seq_num: nat, name: Seq<char>, params: Seq<Seq<char>>) -> Seq<char> {
    seq!['A', 'T', '*'] + name + seq!['='] + decimal(seq_num) + joined_params(params) + seq!['\r']
}

/// Relies on `String::push`: the character is appended at the end.
#[verifier::external_body]
fn push_char(s: &mut String, c: char)
    ensures
        final(s)@ == old(s)@.push(c),
{
    s.push(c);
}

/// Appends the decimal digits of `n`.
fn push_decimal(s: &mut String, n: u64)
    ensures
        final(s)@ == old(s)@ + decimal(n as nat),
    decreases n,
{
    if n >= 10 {
        push_decimal(s, n / 10);
    }
    let d = (n % 10) as u8;
    push_char(s, (48u8 + d) as char);
    proof {
        assert(decimal(n as nat) == if n < 10 {
            seq![digit_char(n as nat)]
        } else {
            decimal((n / 10) as nat).push(digit_char((n % 10) as nat))
        });
    }
    assert(final(s)@ =~= old(s)@ + decimal(n as nat));
}

/// Renders a signed integer in decimal.
pub fn format_int(num: i32) -> (r: String)
    ensures
        r@ == signed_decimal(num as int),
{
    let mut s = String::new();
    if num < 0 {
        push_char(&mut s, '-');
        let mag: u64 = (0i64 - num as i64) as u64;
        push_decimal(&mut s, mag);
    } else {
        push_decimal(&mut s, num as u64);
    }
    assert(s@ =~= signed_decimal(num as int));
    s
}

/// Renders an unsigned integer in decimal; a float parameter travels as the
/// decimal value of its bit pattern.
pub fn format_uint(num: u32) -> (r: String)
    ensures
        r@ == decimal(num as nat),
{
    let mut s = String::new();
    push_decimal(&mut s, num as u64);
    assert(s@ =~= decimal(num as nat));
    s
}

/// Puts an owned string between double quotes.
pub fn format_string(s: String) -> (r: String)
    ensures
        r@ == quoted(s@),
{
    format_str(s.as_str())
}

/// Puts a string between double quotes.
pub fn format_str(s: &str) -> (r: String)
    ensures
        r@ == quoted(s@),
{
    let mut r = String::new();
    push_char(&mut r, '"');
    r.append(s);
    push_char(&mut r, '"');
    assert(r@ =~= quoted(s@));
    r
}

/// Encodes one command: `AT*<name>=<seq>[,<param>]*\r`.
pub fn format_command(command_num: usize, command: &str, params: &Vec<String>) -> (r: String)
    ensures
        r@ == command_line(command_num as nat, command@, params.deep_view()),
{
    let mut s = String::new();
    push_char(&mut s, 'A');
    push_char(&mut s, 'T');
    push_char(&mut s, '*');
    s.append(command);
    push_char(&mut s, '=');
    push_decimal(&mut s, command_num as u64);
    let ghost head = s@;
    let mut i: usize = 0;
    while i < params.len()
        invariant
            i <= params.len(),
            s@ == head + joined_params(params.deep_view().subrange(0, i as int)),
        decreases params.len() - i,
    {
        push_char(&mut s, ',');
        s.append(params[i].as_str());
        proof {
            let ps = params.deep_view().subrange(0, i + 1);
            assert(ps.drop_last() =~= params.deep_view().subrange(0, i as int));
        }
        i = i + 1;
        assert(s@ =~= head + joined_params(params.deep_view().subrange(0, i as int)));
    }
    assert(params.deep_view().subrange(0, params.len() as int) =~= params.deep_view());
    push_char(&mut s, '\r');
    assert(s@ =~= command_line(command_num as nat, command@, params.deep_view()));
    s
}

} // verus!
