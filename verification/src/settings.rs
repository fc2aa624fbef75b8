//! Server settings given as comma-separated lists.
use crate::rpc_url::{opt_strings_of, split_at_commas, split_commas, strings_of};
use crate::text::{trim, trim_spec};
use vstd::prelude::*;
use vstd::string::*;

verus! {

/// The entries of comma-separated pieces: each trimmed, the empty ones
/// dropped.
pub open spec fn trimmed_entries(pieces: Seq<Seq<char>>) -> Seq<Seq<char>>
    decreases pieces.len(),
{
    if pieces.len() == 0 {
        Seq::empty()
    } else {
        let rest = trimmed_entries(pieces.drop_last());
        let t = trim_spec(pieces.last());
        if t.len() > 0 {
            rest.push(t)
        } else {
            rest
        }
    }
}

/// The origins that the cross-origin setting allows: `None` when the setting
/// is absent or names no origin.
pub open spec fn cors_origins_of(raw: Option<Seq<char>>) -> Option<Seq<Seq<char>>> {
    match raw {
        None => None,
        Some(s) => {
            let e = trimmed_entries(split_commas(s));
            if e.len() == 0 {
                None
            } else {
                Some(e)
            }
        },
    }
}

/// The origins allowed by the value of the cross-origin setting (the process
/// reads `EVM_DEBUGGER_CORS_ALLOW_ORIGINS` and hands it over).
pub fn parse_cors_origins(raw: Option<&str>) -> (r: Option<Vec<String>>)
    ensures
        opt_strings_of(r) == cors_origins_of(
            match raw {
                Some(s) => Some(s@),
                None => None,
            },
        ),
{
    let s = match raw {
        Some(s) => s,
        None => return None,
    };
    let pieces = split_at_commas(s);
    let ghost ps = strings_of(pieces@);
    let mut list: Vec<String> = Vec::new();
    for i in 0..pieces.len()
        invariant
            ps == strings_of(pieces@),
            ps == split_commas(s@),
            strings_of(list@) == trimmed_entries(ps.take(i as int)),
    {
        let t = trim(pieces[i].as_str());
        proof {
            assert(ps.take(i + 1).drop_last() =~= ps.take(i as int));
            assert(ps.take(i + 1).last() == pieces@[i as int]@);
        }
        if t.unicode_len() > 0 {
            list.push(String::from_str(t));
            proof {
                assert(strings_of(list@) =~= trimmed_entries(ps.take(i as int)).push(
                    trim_spec(pieces@[i as int]@),
                ));
            }
        }
    }
    proof {
        assert(ps.take(pieces@.len() as int) =~= ps);
    }
    if list.len() == 0 {
        None
    } else {
        Some(list)
    }
}

} // verus!
