//! The mail store's naming scheme: where an accepted message is persisted.
//!
//! A recipient string is sanitized into a per-recipient container name by
//! replacing characters unsafe for a path segment, and the entry name inside
//! the container is the delivery time in whole seconds. Naming is
//! deterministic, so two deliveries to one recipient within the same clock
//! second collide and the later write silently overwrites the earlier one —
//! a documented limitation, kept as specified. The filesystem work itself
//! (creating the container, writing the entry) is the caller's.

use vstd::prelude::*;

verus! {

/// A character the store keeps out of a path segment.
pub open spec fn is_unsafe_char(c: char) -> bool {
    c == '@' || c == '<' || c == '>' || c == '.'
}

/// What one recipient character contributes to the container name:
/// `@` becomes `_at_`, angle brackets vanish, `.` becomes `_`, and every
/// other character stands as it is.
pub open spec fn sanitize_char(c: char) -> Seq<char> {
    if c == '@' {
        "_at_"@
    } else if c == '<' || c == '>' {
        Seq::empty()
    } else if c == '.' {
        "_"@
    } else {
        seq![c]
    }
}

/// The sanitized container name for a recipient string.
pub open spec fn sanitize_seq(s: Seq<char>) -> Seq<char>
    decreases s.len(),
{
    if s.len() == 0 {
        Seq::empty()
    } else {
        sanitize_char(s[0]) + sanitize_seq(s.drop_first())
    }
}

proof fn lemma_sanitize_push(t: Seq<char>, c: char)
    ensures
        sanitize_seq(t.push(c)) == sanitize_seq(t) + sanitize_char(c),
    decreases t.len(),
{
    if t.len() == 0 {
        assert(t.push(c)[0] == c);
        assert(t.push(c).drop_first() =~= Seq::<char>::empty());
        assert(sanitize_seq(Seq::<char>::empty()) == Seq::<char>::empty());
        assert(sanitize_char(c) + Seq::<char>::empty() =~= sanitize_char(c));
        assert(Seq::<char>::empty() + sanitize_char(c) =~= sanitize_char(c));
    } else {
        lemma_sanitize_push(t.drop_first(), c);
        assert(t.push(c)[0] == t[0]);
        assert(t.push(c).drop_first() =~= t.drop_first().push(c));
        assert(sanitize_char(t[0]) + (sanitize_seq(t.drop_first()) + sanitize_char(c)) =~= (
        sanitize_char(t[0]) + sanitize_seq(t.drop_first())) + sanitize_char(c));
    }
}

/// The container name for a recipient, with every unsafe character
/// replaced or dropped.
pub fn sanitize_recipient(recipient: &str) -> (r: String)
    ensures
        r@ == sanitize_seq(recipient@),
{
    let n = recipient.unicode_len();
    let mut r = String::new();
    let mut i: usize = 0;
    while i < n
        invariant
            i <= n,
            n == recipient@.len(),
            r@ == sanitize_seq(recipient@.subrange(0, i as int)),
        decreases n - i,
    {
        let ghost done = recipient@.subrange(0, i as int);
        let c = recipient.get_char(i);
        if c == '@' {
            r.append("_at_");
        } else if c == '<' || c == '>' {
            proof {
                assert(r@ + Seq::<char>::empty() =~= r@);
            }
        } else if c == '.' {
            r.append("_");
        } else {
            let piece = recipient.substring_char(i, i + 1);
            proof {
                assert(piece@ =~= seq![recipient@[i as int]]);
            }
            r.append(piece);
        }
        proof {
            lemma_sanitize_push(done, c);
            assert(done.push(c) =~= recipient@.subrange(0, i + 1));
        }
        i += 1;
    }
    proof {
        assert(recipient@.subrange(0, n as int) =~= recipient@);
    }
    r
}

/// Sanitization removes every unsafe character: the container name holds
/// no `@`, `<`, `>`, or `.`, whatever the recipient string was.
pub proof fn lemma_sanitized_has_no_unsafe_char(s: Seq<char>)
    ensures
        forall|i: int|
            0 <= i < sanitize_seq(s).len() ==> !is_unsafe_char(#[trigger] sanitize_seq(s)[i]),
    decreases s.len(),
{
    reveal_strlit("_at_");
    reveal_strlit("_");
    if s.len() > 0 {
        lemma_sanitized_has_no_unsafe_char(s.drop_first());
        let head = sanitize_char(s[0]);
        let rest = sanitize_seq(s.drop_first());
        assert forall|i: int|
            0 <= i < sanitize_seq(s).len() implies !is_unsafe_char(
            #[trigger] sanitize_seq(s)[i],
        ) by {
            if i < head.len() {
                assert(sanitize_seq(s)[i] == head[i]);
                if s[0] == '@' {
                    assert(!is_unsafe_char("_at_"@[i]));
                } else if s[0] == '.' {
                    assert(!is_unsafe_char("_"@[i]));
                }
            } else {
                assert(sanitize_seq(s)[i] == rest[i - head.len()]);
            }
        }
    }
}

/// The decimal digit for a value below ten.
pub open spec fn dec_digit(d: nat) -> char {
    if d == 0 {
        '0'
    } else if d == 1 {
        '1'
    } else if d == 2 {
        '2'
    } else if d == 3 {
        '3'
    } else if d == 4 {
        '4'
    } else if d == 5 {
        '5'
    } else if d == 6 {
        '6'
    } else if d == 7 {
        '7'
    } else if d == 8 {
        '8'
    } else {
        '9'
    }
}

/// The usual decimal rendering of a number, most significant digit first,
/// no leading zeroes (a single `0` for zero).
pub open spec fn dec_str(n: nat) -> Seq<char>
    decreases n,
{
    if n < 10 {
        seq![dec_digit(n)]
    } else {
        dec_str(n / 10) + seq![dec_digit(n % 10)]
    }
}

fn dec_digit_str(d: u64) -> (r: &'static str)
    requires
        d < 10,
    ensures
        r@ == seq![dec_digit(d as nat)],
{
    proof {
        reveal_strlit("0");
        reveal_strlit("1");
        reveal_strlit("2");
        reveal_strlit("3");
        reveal_strlit("4");
        reveal_strlit("5");
        reveal_strlit("6");
        reveal_strlit("7");
        reveal_strlit("8");
        reveal_strlit("9");
    }
    if d == 0 {
        proof {
            assert("0"@ =~= seq![dec_digit(d as nat)]);
        }
        "0"
    } else if d == 1 {
        proof {
            assert("1"@ =~= seq![dec_digit(d as nat)]);
        }
        "1"
    } else if d == 2 {
        proof {
            assert("2"@ =~= seq![dec_digit(d as nat)]);
        }
        "2"
    } else if d == 3 {
        proof {
            assert("3"@ =~= seq![dec_digit(d as nat)]);
        }
        "3"
    } else if d == 4 {
        proof {
            assert("4"@ =~= seq![dec_digit(d as nat)]);
        }
        "4"
    } else if d == 5 {
        proof {
            assert("5"@ =~= seq![dec_digit(d as nat)]);
        }
        "5"
    } else if d == 6 {
        proof {
            assert("6"@ =~= seq![dec_digit(d as nat)]);
        }
        "6"
    } else if d == 7 {
        proof {
            assert("7"@ =~= seq![dec_digit(d as nat)]);
        }
        "7"
    } else if d == 8 {
        proof {
            assert("8"@ =~= seq![dec_digit(d as nat)]);
        }
        "8"
    } else {
        proof {
            assert("9"@ =~= seq![dec_digit(d as nat)]);
        }
        "9"
    }
}

/// The delivery second rendered in decimal, as the entry's base name.
pub fn seconds_to_dec(n: u64) -> (r: String)
    ensures
        r@ == dec_str(n as nat),
    decreases n,
{
    if n < 10 {
        String::from_str(dec_digit_str(n))
    } else {
        let mut r = seconds_to_dec(n / 10);
        r.append(dec_digit_str(n % 10));
        proof {
            assert((n / 10) as nat == n as nat / 10);
            assert((n % 10) as nat == n as nat % 10);
        }
        r
    }
}

/// The per-recipient container, under the store's root directory.
pub open spec fn storage_dir_spec(recipient: Seq<char>) -> Seq<char> {
    "mail/"@ + sanitize_seq(recipient)
}

/// The entry for one accepted message: the container, then the delivery
/// second with the store's fixed extension. Deterministic in its two
/// arguments, so same recipient and same second means the same entry.
pub open spec fn storage_path_spec(recipient: Seq<char>, seconds: u64) -> Seq<char> {
    storage_dir_spec(recipient) + "/"@ + dec_str(seconds as nat) + ".eml"@
}

/// The container directory for a recipient, ready for the caller to create.
pub fn storage_dir(recipient: &str) -> (r: String)
    ensures
        r@ == storage_dir_spec(recipient@),
{
    let mut r = String::from_str("mail/");
    let name = sanitize_recipient(recipient);
    r.append(name.as_str());
    r
}

/// The full entry path for a message delivered to `recipient` during the
/// clock second `seconds`.
pub fn storage_path(recipient: &str, seconds: u64) -> (r: String)
    ensures
        r@ == storage_path_spec(recipient@, seconds),
{
    let mut r = storage_dir(recipient);
    r.append("/");
    let name = seconds_to_dec(seconds);
    r.append(name.as_str());
    r.append(".eml");
    proof {
        assert(((storage_dir_spec(recipient@) + "/"@) + dec_str(seconds as nat)) + ".eml"@
            =~= storage_path_spec(recipient@, seconds));
    }
    r
}

} // verus!
