//! Library-wide laws: properties that relate several functions, stated over
//! the same models their contracts use, and proved once and for all.

use vstd::prelude::*;

use crate::types::EndpointModel;
use crate::types::HttpMethod;
use crate::swagger::PathItemModel;
use crate::swagger::SpecModel;
use crate::swagger::spec_extract_endpoints;
use crate::swagger::spec_extract_from;
use crate::swagger::spec_path_endpoints;
use crate::swagger::spec_add_required;
use crate::service::spec_available;
use crate::service::spec_descriptor;
use crate::service::spec_add_required_params;

verus! {

/// The number of the five supported methods declared at one path.
pub open spec fn spec_method_count(pi: PathItemModel) -> int {
    (if pi.get is Some {
        1int
    } else {
        0int
    }) + (if pi.post is Some {
        1int
    } else {
        0int
    }) + (if pi.put is Some {
        1int
    } else {
        0int
    }) + (if pi.delete is Some {
        1int
    } else {
        0int
    }) + (if pi.patch is Some {
        1int
    } else {
        0int
    })
}

/// The number of (path, declared method) pairs of a whole document.
pub open spec fn spec_total_method_count(paths: Seq<(Seq<char>, PathItemModel)>) -> int
    decreases paths.len(),
{
    if paths.len() == 0 {
        0int
    } else {
        spec_method_count(paths[0].1) + spec_total_method_count(paths.drop_first())
    }
}

proof fn lemma_extract_from_count(paths: Seq<(Seq<char>, PathItemModel)>)
    ensures
        spec_extract_from(paths).len() == spec_total_method_count(paths),
    decreases paths.len(),
{
    if paths.len() > 0 {
        lemma_extract_from_count(paths.drop_first());
        assert(spec_path_endpoints(paths[0].0, paths[0].1).len() == spec_method_count(
            paths[0].1,
        ));
    }
}

/// Extraction yields exactly one endpoint per (path, declared method) pair:
/// the endpoint count is the sum, over all paths, of the number of the five
/// supported methods present there.
pub proof fn lemma_extract_count(doc: SpecModel)
    ensures
        spec_extract_endpoints(doc).len() == spec_total_method_count(doc.paths),
{
    lemma_extract_from_count(doc.paths);
}

/// Extraction is a pure function of the document: extracting twice from the
/// same document yields structurally identical endpoint lists, order
/// included.
pub proof fn lemma_extract_idempotent(
    doc: SpecModel,
    first: Seq<EndpointModel>,
    second: Seq<EndpointModel>,
)
    requires
        first == spec_extract_endpoints(doc),
        second == spec_extract_endpoints(doc),
    ensures
        first == second,
{
}

/// Under read-only policy the available endpoints are exactly the subset with
/// method GET: never more than the full list, every member a GET, and every
/// GET member of the full list kept. Without read-only, everything is
/// available.
pub proof fn lemma_read_only_available(eps: Seq<EndpointModel>)
    ensures
        spec_available(eps, true).len() <= eps.len(),
        forall|i: int|
            0 <= i < spec_available(eps, true).len() ==> (#[trigger] spec_available(eps, true)[i]).method
                == HttpMethod::Get,
        forall|i: int|
            0 <= i < eps.len() && (#[trigger] eps[i]).method == HttpMethod::Get ==> spec_available(
                eps,
                true,
            ).contains(eps[i]),
        spec_available(eps, false) == eps,
    decreases eps.len(),
{
    reveal(Seq::filter);
    if eps.len() > 0 {
        let prefix = eps.drop_last();
        lemma_read_only_available(prefix);
        assert(spec_available(eps, true) == if eps.last().method == HttpMethod::Get {
            spec_available(prefix, true).push(eps.last())
        } else {
            spec_available(prefix, true)
        });
        assert forall|i: int|
            0 <= i < eps.len() && (#[trigger] eps[i]).method
                == HttpMethod::Get implies spec_available(eps, true).contains(eps[i]) by {
            if i < eps.len() - 1 {
                assert(prefix[i] == eps[i]);
                assert(spec_available(prefix, true).contains(eps[i]));
                let w = choose|w: int|
                    0 <= w < spec_available(prefix, true).len() && spec_available(prefix, true)[w]
                        == eps[i];
                assert(spec_available(eps, true)[w] == eps[i]);
            } else {
                assert(spec_available(eps, true).last() == eps[i]);
            }
        }
    }
}

/// Membership in a pushed sequence of names.
proof fn lemma_push_contains(s: Seq<Seq<char>>, y: Seq<char>, x: Seq<char>)
    ensures
        s.push(y).contains(x) <==> (s.contains(x) || x == y),
{
    if s.push(y).contains(x) {
        let i = choose|i: int| 0 <= i < s.push(y).len() && s.push(y)[i] == x;
        if i < s.len() {
            assert(s[i] == x);
        }
    }
    if s.contains(x) {
        let i = choose|i: int| 0 <= i < s.len() && s[i] == x;
        assert(s.push(y)[i] == x);
    }
    if x == y {
        assert(s.push(y)[s.len() as int] == x);
    }
}

/// Membership split at the head of a sequence of names.
proof fn lemma_head_contains(s: Seq<Seq<char>>, x: Seq<char>)
    requires
        s.len() > 0,
    ensures
        s.contains(x) <==> (x == s[0] || s.drop_first().contains(x)),
{
    if s.contains(x) {
        let i = choose|i: int| 0 <= i < s.len() && s[i] == x;
        if i > 0 {
            assert(s.drop_first()[i - 1] == x);
        }
    }
    if s.drop_first().contains(x) {
        let i = choose|i: int| 0 <= i < s.drop_first().len() && s.drop_first()[i] == x;
        assert(s[i + 1] == x);
    }
}

/// A name comes out of the required merge exactly when it went in on either
/// side.
proof fn lemma_add_required_contains(acc: Seq<Seq<char>>, add: Seq<Seq<char>>, x: Seq<char>)
    ensures
        spec_add_required(acc, add).contains(x) <==> (acc.contains(x) || add.contains(x)),
    decreases add.len(),
{
    if add.len() == 0 {
        assert(!add.contains(x));
    } else {
        let acc1 = if acc.contains(add[0]) {
            acc
        } else {
            acc.push(add[0])
        };
        lemma_add_required_contains(acc1, add.drop_first(), x);
        lemma_push_contains(acc, add[0], x);
        lemma_head_contains(add, x);
    }
}

/// No sequence of names repeats an element.
pub open spec fn spec_no_dups(s: Seq<Seq<char>>) -> bool {
    forall|i: int, j: int| 0 <= i < j < s.len() ==> s[i] != s[j]
}

/// The required merge never introduces a duplicate.
proof fn lemma_add_required_nodup(acc: Seq<Seq<char>>, add: Seq<Seq<char>>)
    requires
        spec_no_dups(acc),
    ensures
        spec_no_dups(spec_add_required(acc, add)),
    decreases add.len(),
{
    if add.len() > 0 {
        let acc1 = if acc.contains(add[0]) {
            acc
        } else {
            acc.push(add[0])
        };
        if !acc.contains(add[0]) {
            assert forall|i: int, j: int| 0 <= i < j < acc1.len() implies acc1[i] != acc1[j] by {
                if j == acc1.len() - 1 {
                    assert(acc1[j] == add[0]);
                    if acc1[i] == add[0] {
                        assert(acc.contains(add[0]));
                    }
                }
            }
        }
        lemma_add_required_nodup(acc1, add.drop_first());
    }
}

/// A name comes out of the parameter-required merge exactly when it went in
/// with the accumulator or names a declared-required parameter.
proof fn lemma_add_required_params_contains(
    acc: Seq<Seq<char>>,
    params: Seq<crate::types::ParamModel>,
    x: Seq<char>,
)
    ensures
        spec_add_required_params(acc, params).contains(x) <==> (acc.contains(x) || exists|i: int|
            0 <= i < params.len() && (#[trigger] params[i]).required && params[i].name == x),
    decreases params.len(),
{
    if params.len() == 0 {
        assert(!(exists|i: int|
            0 <= i < params.len() && (#[trigger] params[i]).required && params[i].name == x));
    } else {
        let acc1 = if params[0].required && !acc.contains(params[0].name) {
            acc.push(params[0].name)
        } else {
            acc
        };
        lemma_add_required_params_contains(acc1, params.drop_first(), x);
        lemma_push_contains(acc, params[0].name, x);
        if exists|i: int|
            0 <= i < params.len() && (#[trigger] params[i]).required && params[i].name == x {
            let i = choose|i: int|
                0 <= i < params.len() && (#[trigger] params[i]).required && params[i].name == x;
            if i > 0 {
                assert(params.drop_first()[i - 1].required && params.drop_first()[i - 1].name == x);
            }
        }
        if exists|i: int|
            0 <= i < params.drop_first().len() && (#[trigger] params.drop_first()[i]).required
                && params.drop_first()[i].name == x {
            let i = choose|i: int|
                0 <= i < params.drop_first().len() && (#[trigger] params.drop_first()[i]).required
                    && params.drop_first()[i].name == x;
            assert(params[i + 1].required && params[i + 1].name == x);
        }
    }
}

/// The parameter-required merge never introduces a duplicate.
proof fn lemma_add_required_params_nodup(acc: Seq<Seq<char>>, params: Seq<crate::types::ParamModel>)
    requires
        spec_no_dups(acc),
    ensures
        spec_no_dups(spec_add_required_params(acc, params)),
    decreases params.len(),
{
    if params.len() > 0 {
        let acc1 = if params[0].required && !acc.contains(params[0].name) {
            acc.push(params[0].name)
        } else {
            acc
        };
        if params[0].required && !acc.contains(params[0].name) {
            assert forall|i: int, j: int| 0 <= i < j < acc1.len() implies acc1[i] != acc1[j] by {
                if j == acc1.len() - 1 {
                    assert(acc1[j] == params[0].name);
                    if acc1[i] == params[0].name {
                        assert(acc.contains(params[0].name));
                    }
                }
            }
        }
        lemma_add_required_params_nodup(acc1, params.drop_first());
    }
}

/// The descriptor's required list is a superset of the body's declared
/// required names, unioned with the names of the required path and query
/// parameters, and holds no duplicates.
pub proof fn lemma_descriptor_required(e: EndpointModel)
    ensures
        spec_no_dups(spec_descriptor(e).required),
        match e.request_body {
            Some(b) => forall|x: Seq<char>|
                b.required.contains(x) ==> #[trigger] spec_descriptor(e).required.contains(x),
            None => true,
        },
        forall|i: int|
            0 <= i < e.path_params.len() && (#[trigger] e.path_params[i]).required
                ==> spec_descriptor(e).required.contains(e.path_params[i].name),
        forall|i: int|
            0 <= i < e.query_params.len() && (#[trigger] e.query_params[i]).required
                ==> spec_descriptor(e).required.contains(e.query_params[i].name),
{
    let req0 = spec_add_required_params(Seq::empty(), e.path_params);
    let req1 = spec_add_required_params(req0, e.query_params);
    let req2 = spec_descriptor(e).required;
    lemma_add_required_params_nodup(Seq::empty(), e.path_params);
    lemma_add_required_params_nodup(req0, e.query_params);
    match e.request_body {
        Some(b) => {
            lemma_add_required_nodup(req1, b.required);
            assert forall|x: Seq<char>| b.required.contains(x) implies #[trigger] req2.contains(
                x,
            ) by {
                lemma_add_required_contains(req1, b.required, x);
            }
        },
        None => {},
    }
    assert forall|i: int|
        0 <= i < e.path_params.len() && (#[trigger] e.path_params[i]).required implies req2.contains(
        e.path_params[i].name,
    ) by {
        lemma_add_required_params_contains(Seq::empty(), e.path_params, e.path_params[i].name);
        lemma_add_required_params_contains(req0, e.query_params, e.path_params[i].name);
        match e.request_body {
            Some(b) => {
                lemma_add_required_contains(req1, b.required, e.path_params[i].name);
            },
            None => {},
        }
    }
    assert forall|i: int|
        0 <= i < e.query_params.len() && (#[trigger] e.query_params[i]).required implies req2.contains(
        e.query_params[i].name,
    ) by {
        lemma_add_required_params_contains(req0, e.query_params, e.query_params[i].name);
        match e.request_body {
            Some(b) => {
                lemma_add_required_contains(req1, b.required, e.query_params[i].name);
            },
            None => {},
        }
    }
}

} // verus!
