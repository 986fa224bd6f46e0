use vstd::prelude::*;
use vstd::string::*;

verus! {

/// Longest service descriptor the transport accepts, in characters.
pub const MAX_SERVICE_TYPE_LEN: usize = 15;

/// The characters a service descriptor may hold: ASCII letters, digits and hyphens.
pub open spec fn is_service_char(c: char) -> bool {
    ('a' <= c && c <= 'z') || ('A' <= c && c <= 'Z') || ('0' <= c && c <= '9') || c == '-'
}

/// `is_service_char` as a value, for filtering.
pub open spec fn service_char_filter() -> spec_fn(char) -> bool {
    |c: char| is_service_char(c)
}

/// The prefix that scopes every descriptor to this family of applications.
pub open spec fn service_prefix() -> Seq<char> {
    seq!['i', 'r', 'o', 'h', '-']
}

/// At most the first `n` elements of `s`.
pub open spec fn take_at_most(s: Seq<char>, n: nat) -> Seq<char> {
    if s.len() <= n {
        s
    } else {
        s.take(n as int)
    }
}

/// The descriptor derived from an application's service name: the prefix and the
/// name, without the disallowed characters, cut to the first fifteen characters.
pub open spec fn service_descriptor(name: Seq<char>) -> Seq<char> {
    take_at_most((service_prefix() + name).filter(service_char_filter()), 15)
}

/// Whether `c` may stand in a service descriptor.
pub fn is_service_char_exec(c: char) -> (r: bool)
    ensures
        r == is_service_char(c),
{
    ('a' <= c && c <= 'z') || ('A' <= c && c <= 'Z') || ('0' <= c && c <= '9') || c == '-'
}

/// Every descriptor is short enough for the transport and holds only allowed characters.
pub proof fn lemma_descriptor_well_formed(name: Seq<char>)
    ensures
        service_descriptor(name).len() <= 15,
        forall|i: int|
            0 <= i < service_descriptor(name).len() ==> is_service_char(
                #[trigger] service_descriptor(name)[i],
            ),
{
    let full = (service_prefix() + name).filter(service_char_filter());
    full.lemma_filter_len(service_char_filter());
    assert forall|i: int| 0 <= i < service_descriptor(name).len() implies is_service_char(
        #[trigger] service_descriptor(name)[i],
    ) by {
        (service_prefix() + name).lemma_filter_pred(service_char_filter(), i);
        if full.len() > 15 {
            assert(service_descriptor(name)[i] == full[i]);
        }
    }
}

proof fn lemma_filter_step(s: Seq<char>, i: int)
    requires
        0 <= i < s.len(),
    ensures
        s.take(i + 1).filter(service_char_filter()) == if is_service_char(s[i]) {
            s.take(i).filter(service_char_filter()).push(s[i])
        } else {
            s.take(i).filter(service_char_filter())
        },
{
    reveal(Seq::filter);
    assert(s.take(i + 1).drop_last() =~= s.take(i));
}

/// Formats `service_name` into the descriptor under which peers advertise and browse.
pub fn format_service_type(service_name: &str) -> (r: String)
    ensures
        r@ == service_descriptor(service_name@),
{
    let full = String::from_str("iroh-").concat(service_name);
    proof {
        reveal_strlit("iroh-");
        assert(full@ =~= service_prefix() + service_name@);
    }
    let text = full.as_str();
    let n = text.unicode_len();
    let mut out = String::new();
    let mut kept: usize = 0;
    let mut i: usize = 0;
    while i < n
        invariant
            n == text@.len(),
            text@ == full@,
            full@ == service_prefix() + service_name@,
            i <= n,
            kept == out@.len(),
            kept <= MAX_SERVICE_TYPE_LEN,
            out@ == take_at_most(text@.take(i as int).filter(service_char_filter()), 15),
        decreases n - i,
    {
        let c = text.get_char(i);
        let ghost before = text@.take(i as int).filter(service_char_filter());
        proof {
            lemma_filter_step(text@, i as int);
        }
        if is_service_char_exec(c) && kept < MAX_SERVICE_TYPE_LEN {
            let piece = text.substring_char(i, i + 1);
            out.append(piece);
            kept = kept + 1;
            proof {
                assert(piece@ =~= seq![c]);
                assert(out@ =~= take_at_most(before.push(c), 15));
            }
        } else {
            proof {
                if is_service_char(c) {
                    assert(take_at_most(before.push(c), 15) =~= take_at_most(before, 15));
                }
            }
        }
        i = i + 1;
    }
    proof {
        assert(text@.take(n as int) =~= text@);
    }
    out
}

} // verus!
