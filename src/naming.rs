//! Transaction names derived from the matched route.
use vstd::prelude::*;

verus! {

/// The name used for whatever part of a transaction name is missing.
pub open spec fn spec_unknown_handler() -> Seq<char> {
    seq!['u', 'n', 'k', 'n', 'o', 'w', 'n', '_', 'h', 'a', 'n', 'd', 'l', 'e', 'r']
}

/// `s` with every leading `'/'` removed.
pub open spec fn strip_leading_slashes(s: Seq<char>) -> Seq<char>
    decreases s.len(),
{
    if s.len() > 0 && s[0] == '/' {
        strip_leading_slashes(s.drop_first())
    } else {
        s
    }
}

/// `"{base without leading slashes}/{handler}"`, with `unknown_handler` for a
/// handler without a name, and `unknown_handler` alone when no route matched.
pub open spec fn spec_transaction_name(
    base: Option<Seq<char>>,
    handler: Option<Seq<char>>,
) -> Seq<char> {
    match base {
        None => spec_unknown_handler(),
        Some(b) => strip_leading_slashes(b) + seq!['/'] + match handler {
            Some(h) => h,
            None => spec_unknown_handler(),
        },
    }
}

proof fn lemma_strip_from(s: Seq<char>, i: int)
    requires
        0 <= i <= s.len(),
        forall|j: int| 0 <= j < i ==> s[j] == '/',
    ensures
        strip_leading_slashes(s) == strip_leading_slashes(s.subrange(i, s.len() as int)),
    decreases i,
{
    if i > 0 {
        assert(s[0] == '/');
        let t = s.drop_first();
        assert forall|j: int| 0 <= j < i - 1 implies t[j] == '/' by {
            assert(t[j] == s[j + 1]);
        }
        lemma_strip_from(t, i - 1);
        assert(t.subrange(i - 1, t.len() as int) =~= s.subrange(i, s.len() as int));
    } else {
        assert(s.subrange(0, s.len() as int) =~= s);
    }
}

/// `base` with every leading `'/'` removed.
pub fn trim_leading_slashes(base: &str) -> (r: &str)
    ensures
        r@ == strip_leading_slashes(base@),
{
    let n = base.unicode_len();
    let mut i: usize = 0;
    while i < n && base.get_char(i) == '/'
        invariant
            n == base@.len(),
            i <= n,
            forall|j: int| 0 <= j < i ==> base@[j] == '/',
        decreases n - i,
    {
        i = i + 1;
    }
    proof {
        lemma_strip_from(base@, i as int);
        let rest = base@.subrange(i as int, n as int);
        if rest.len() > 0 {
            assert(rest[0] == base@[i as int]);
        }
    }
    base.substring_char(i, n)
}

/// The transaction name for a request: `base` is the matched route's base
/// path (`None` when no route matched) and `handler` the handler's name.
pub fn transaction_name(base: Option<&str>, handler: Option<&str>) -> (r: String)
    ensures
        r@ == spec_transaction_name(
            match base {
                Some(b) => Some(b@),
                None => None,
            },
            match handler {
                Some(h) => Some(h@),
                None => None,
            },
        ),
{
    let unknown = "unknown_handler";
    proof {
        reveal_strlit("unknown_handler");
        assert(unknown@ =~= spec_unknown_handler());
    }
    match base {
        None => String::from_str(unknown),
        Some(b) => {
            let mut name = String::from_str(trim_leading_slashes(b));
            let sep = "/";
            proof {
                reveal_strlit("/");
                assert(sep@ =~= seq!['/']);
            }
            name.append(sep);
            match handler {
                Some(h) => name.append(h),
                None => name.append(unknown),
            }
            name
        },
    }
}

} // verus!
