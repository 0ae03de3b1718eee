//! The line-oriented Python scanner: splitting of parameter lists and
//! import statements, signatures, class and def headers, call tokens, and
//! the extraction of nodes, imports and call sites from a source file.

use vstd::prelude::*;

use crate::schema::{PartialParam, PartialParamV, Signature, SignatureV, TypedParam, TypedParamV};
use crate::text::{
    after_last, after_last_text, chars_of, find_from, find_text, is_space_char, push_char,
    starts_with, starts_with_text, string_of, trim_of, trim_text, trimmed_range,
};

verus! {

// ---------------------------------------------------------------- brackets

pub open spec fn is_open_bracket(c: char) -> bool {
    c == '(' || c == '[' || c == '{'
}

pub open spec fn is_close_bracket(c: char) -> bool {
    c == ')' || c == ']' || c == '}'
}

/// The bracket depth after `s`: openings minus closings.
pub open spec fn depth_of(s: Seq<char>) -> int
    decreases s.len(),
{
    if s.len() == 0 {
        0
    } else {
        depth_of(s.drop_last()) + if is_open_bracket(s.last()) {
            1int
        } else if is_close_bracket(s.last()) {
            -1int
        } else {
            0int
        }
    }
}

/// The first index at or after `k` where `d` stands outside all brackets.
pub open spec fn find_top_level(s: Seq<char>, d: char, k: int) -> Option<int>
    decreases s.len() - k,
{
    if k < 0 || k >= s.len() {
        None
    } else if s[k] == d && !is_open_bracket(d) && !is_close_bracket(d) && depth_of(s.take(k))
        == 0 {
        Some(k)
    } else {
        find_top_level(s, d, k + 1)
    }
}

/// The split of `s` at its first top-level `d`: what comes before and after.
pub open spec fn split_on_top_level_of(s: Seq<char>, d: char) -> Option<(Seq<char>, Seq<char>)> {
    match find_top_level(s, d, 0) {
        Some(k) => Some((s.take(k), s.skip(k + 1))),
        None => None,
    }
}

/// The state of a left-to-right split on top-level commas.
pub struct SplitState {
    pub items: Seq<Seq<char>>,
    pub current: Seq<char>,
    pub depth: int,
}

pub open spec fn split_step(st: SplitState, c: char) -> SplitState {
    if is_open_bracket(c) {
        SplitState { depth: st.depth + 1, current: st.current.push(c), ..st }
    } else if is_close_bracket(c) {
        SplitState { depth: st.depth - 1, current: st.current.push(c), ..st }
    } else if c == ',' && st.depth == 0 {
        SplitState { items: st.items.push(trim_of(st.current)), current: Seq::empty(), ..st }
    } else {
        SplitState { current: st.current.push(c), ..st }
    }
}

pub open spec fn split_run(s: Seq<char>) -> SplitState
    decreases s.len(),
{
    if s.len() == 0 {
        SplitState { items: Seq::empty(), current: Seq::empty(), depth: 0 }
    } else {
        split_step(split_run(s.drop_last()), s.last())
    }
}

/// The trimmed items of `s` between commas that stand outside brackets; a
/// blank final item is dropped.
pub open spec fn split_top_level_of(s: Seq<char>) -> Seq<Seq<char>> {
    let st = split_run(s);
    if trim_of(st.current).len() > 0 {
        st.items.push(trim_of(st.current))
    } else {
        st.items
    }
}

pub fn split_top_level(input: &str) -> (r: Vec<String>)
    ensures
        r@.map_values(|t: String| t@) == split_top_level_of(input@),
{
    let cs = chars_of(input);
    let mut items: Vec<String> = Vec::new();
    let mut current = String::new();
    let mut opens: usize = 0;
    let mut closes: usize = 0;
    let mut i: usize = 0;
    while i < cs.len()
        invariant
            cs@ == input@,
            i <= cs@.len(),
            opens <= i,
            closes <= i,
            items@.map_values(|t: String| t@) == split_run(cs@.take(i as int)).items,
            current@ == split_run(cs@.take(i as int)).current,
            opens - closes == split_run(cs@.take(i as int)).depth,
        decreases cs@.len() - i,
    {
        let c = cs[i];
        proof {
            assert(cs@.take(i + 1).drop_last() =~= cs@.take(i as int));
        }
        if c == '(' || c == '[' || c == '{' {
            opens = opens + 1;
            push_char(&mut current, c);
        } else if c == ')' || c == ']' || c == '}' {
            closes = closes + 1;
            push_char(&mut current, c);
        } else if c == ',' && opens == closes {
            let item = trim_text(current.as_str());
            items.push(item);
            current = String::new();
        } else {
            push_char(&mut current, c);
        }
        i = i + 1;
        assert(items@.map_values(|t: String| t@) =~= split_run(cs@.take(i as int)).items);
    }
    assert(cs@.take(cs@.len() as int) =~= cs@);
    let last = trim_text(current.as_str());
    if last.as_str().unicode_len() > 0 {
        items.push(last);
    }
    assert(items@.map_values(|t: String| t@) =~= split_top_level_of(input@));
    items
}

/// The split of `input` at its first `delimiter` outside brackets.
pub fn split_on_top_level_char(input: &str, delimiter: char) -> (r: Option<(String, String)>)
    ensures
        match split_on_top_level_of(input@, delimiter) {
            Some((a, b)) => r matches Some((x, y)) && x@ == a && y@ == b,
            None => r is None,
        },
{
    let cs = chars_of(input);
    let mut opens: usize = 0;
    let mut closes: usize = 0;
    let mut i: usize = 0;
    while i < cs.len()
        invariant
            cs@ == input@,
            i <= cs@.len(),
            opens <= i,
            closes <= i,
            opens - closes == depth_of(cs@.take(i as int)),
            find_top_level(cs@, delimiter, 0) == find_top_level(cs@, delimiter, i as int),
        decreases cs@.len() - i,
    {
        let c = cs[i];
        proof {
            assert(cs@.take(i + 1).drop_last() =~= cs@.take(i as int));
        }
        if c == '(' || c == '[' || c == '{' {
            opens = opens + 1;
        } else if c == ')' || c == ']' || c == '}' {
            closes = closes + 1;
        } else if c == delimiter && opens == closes {
            assert(cs@.take(i as int) =~= cs@.subrange(0, i as int));
            assert(cs@.skip(i + 1) =~= cs@.subrange(i + 1, cs@.len() as int));
            return Some((string_of(&cs, 0, i), string_of(&cs, i + 1, cs.len())));
        }
        i = i + 1;
    }
    None
}

/// The split of a parameter at its default value: the part before the first
/// top-level `=`, and the default where there is one.
pub open spec fn split_assignment_of(item: Seq<char>) -> (Seq<char>, Option<Seq<char>>) {
    match split_on_top_level_of(item, '=') {
        Some((a, b)) => (a, Some(b)),
        None => (item, None),
    }
}

pub fn split_top_level_assignment(input: &str) -> (r: (String, Option<String>))
    ensures
        r.0@ == split_assignment_of(input@).0,
        crate::schema::text_option_view(r.1) == split_assignment_of(input@).1,
{
    match split_on_top_level_char(input, '=') {
        Some((a, b)) => (a, Some(b)),
        None => (String::from_str(input), None),
    }
}

pub fn split_top_level_annotation(input: &str) -> (r: Option<(String, String)>)
    ensures
        match split_on_top_level_of(input@, ':') {
            Some((a, b)) => r matches Some((x, y)) && x@ == a && y@ == b,
            None => r is None,
        },
{
    split_on_top_level_char(input, ':')
}

// ---------------------------------------------------------------- imports

/// Applies `f` to each item and keeps the results it gives.
pub open spec fn filter_map_seq<A, B>(s: Seq<A>, f: spec_fn(A) -> Option<B>) -> Seq<B>
    decreases s.len(),
{
    if s.len() == 0 {
        Seq::empty()
    } else {
        let prev = filter_map_seq(s.drop_last(), f);
        match f(s.last()) {
            Some(b) => prev.push(b),
            None => prev,
        }
    }
}

pub proof fn lemma_filter_map_push<A, B>(s: Seq<A>, x: A, f: spec_fn(A) -> Option<B>)
    ensures
        filter_map_seq(s.push(x), f) == match f(x) {
            Some(b) => filter_map_seq(s, f).push(b),
            None => filter_map_seq(s, f),
        },
{
    assert(s.push(x).drop_last() =~= s);
}

/// One item of an import list: a name, and the alias given with ` as `.
pub open spec fn import_part_of(part: Seq<char>) -> Option<(Seq<char>, Option<Seq<char>>)> {
    let item = trim_of(part);
    if item.len() == 0 {
        None
    } else {
        match find_from(item, " as "@, 0) {
            Some(k) => Some((trim_of(item.take(k)), Some(trim_of(item.skip(k + " as "@.len()))))),
            None => Some((item, None)),
        }
    }
}

pub fn parse_import_part(part: &str) -> (r: Option<(String, Option<String>)>)
    ensures
        match import_part_of(part@) {
            Some((name, alias)) => r matches Some((n, a)) && n@ == name
                && crate::schema::text_option_view(a) == alias,
            None => r is None,
        },
{
    let item = trim_text(part);
    let cs = chars_of(item.as_str());
    if cs.len() == 0 {
        return None;
    }
    let pat = chars_of(" as ");
    match find_text(&cs, &pat, 0) {
        Some(k) => {
            proof {
                assert(k + pat@.len() <= cs@.len());
                assert(cs@.take(k as int) =~= cs@.subrange(0, k as int));
                assert(cs@.skip(k + pat@.len()) =~= cs@.subrange(k + pat@.len(), cs@.len() as int));
            }
            let name = trimmed_range(&cs, 0, k);
            let alias = trimmed_range(&cs, k + pat.len(), cs.len());
            Some((name, Some(alias)))
        },
        None => Some((item, None)),
    }
}

/// The binding that `import module [as alias]` makes: the alias, or the last
/// segment of the module's dotted name, bound to the module.
pub open spec fn import_binding(part: Seq<char>) -> Option<(Seq<char>, Seq<char>)> {
    match import_part_of(part) {
        Some((module, alias)) => Some(
            (
                match alias {
                    Some(a) => a,
                    None => after_last(module, '.'),
                },
                module,
            ),
        ),
        None => None,
    }
}

/// The binding that `from module import symbol [as alias]` makes, bound to
/// `module.symbol`; star imports bind nothing.
pub open spec fn from_binding(part: Seq<char>, module: Seq<char>) -> Option<(Seq<char>, Seq<char>)> {
    match import_part_of(part) {
        Some((symbol, alias)) => if symbol == "*"@ {
            None
        } else {
            Some(
                (
                    match alias {
                        Some(a) => a,
                        None => symbol,
                    },
                    trim_of(module) + "."@ + symbol,
                ),
            )
        },
        None => None,
    }
}

/// The alias bindings that a top-level import line makes, in order.
pub open spec fn import_aliases_of(trimmed: Seq<char>) -> Seq<(Seq<char>, Seq<char>)> {
    if starts_with(trimmed, "import "@) {
        filter_map_seq(
            split_top_level_of(trimmed.skip("import "@.len() as int)),
            |p: Seq<char>| import_binding(p),
        )
    } else if starts_with(trimmed, "from "@) {
        let rest = trimmed.skip("from "@.len() as int);
        match find_from(rest, " import "@, 0) {
            Some(k) => filter_map_seq(
                split_top_level_of(rest.skip(k + " import "@.len())),
                |p: Seq<char>| from_binding(p, rest.take(k)),
            ),
            None => Seq::empty(),
        }
    } else {
        Seq::empty()
    }
}

pub open spec fn pairs_view(v: Vec<(String, String)>) -> Seq<(Seq<char>, Seq<char>)> {
    v@.map_values(|p: (String, String)| (p.0@, p.1@))
}

pub fn parse_import_aliases(trimmed: &str) -> (r: Vec<(String, String)>)
    ensures
        pairs_view(r) == import_aliases_of(trimmed@),
{
    let cs = chars_of(trimmed);
    let mut out: Vec<(String, String)> = Vec::new();
    if starts_with_text(trimmed, "import ") {
        let plen = chars_of("import ").len();
        proof {
            assert(cs@.skip(plen as int) =~= cs@.subrange(plen as int, cs@.len() as int));
        }
        let rest = string_of(&cs, plen, cs.len());
        let parts = split_top_level(rest.as_str());
        let ghost model = parts@.map_values(|t: String| t@);
        let mut i: usize = 0;
        while i < parts.len()
            invariant
                i <= parts@.len(),
                model == parts@.map_values(|t: String| t@),
                pairs_view(out) == filter_map_seq(
                    model.take(i as int),
                    |p: Seq<char>| import_binding(p),
                ),
            decreases parts@.len() - i,
        {
            proof {
                assert(model.take(i + 1).drop_last() =~= model.take(i as int));
            }
            match parse_import_part(parts[i].as_str()) {
                Some((module_name, alias)) => {
                    let alias = match alias {
                        Some(a) => a,
                        None => after_last_text(module_name.as_str(), '.'),
                    };
                    out.push((alias, module_name));
                },
                None => {},
            }
            i = i + 1;
            assert(pairs_view(out) =~= filter_map_seq(
                model.take(i as int),
                |p: Seq<char>| import_binding(p),
            ));
        }
        assert(model.take(parts@.len() as int) =~= model);
        return out;
    }
    if starts_with_text(trimmed, "from ") {
        let plen = chars_of("from ").len();
        proof {
            assert(cs@.skip(plen as int) =~= cs@.subrange(plen as int, cs@.len() as int));
        }
        let rest = string_of(&cs, plen, cs.len());
        let rc = chars_of(rest.as_str());
        let pat = chars_of(" import ");
        match find_text(&rc, &pat, 0) {
            Some(k) => {
                proof {
                    assert(k + pat@.len() <= rc@.len());
                    assert(rc@.take(k as int) =~= rc@.subrange(0, k as int));
                    assert(rc@.skip(k + pat@.len()) =~= rc@.subrange(
                        k + pat@.len(),
                        rc@.len() as int,
                    ));
                }
                let module_name = string_of(&rc, 0, k);
                let module_trimmed = trim_text(module_name.as_str());
                let imports = string_of(&rc, k + pat.len(), rc.len());
                let parts = split_top_level(imports.as_str());
                let ghost model = parts@.map_values(|t: String| t@);
                let ghost module = rc@.take(k as int);
                let mut i: usize = 0;
                while i < parts.len()
                    invariant
                        i <= parts@.len(),
                        model == parts@.map_values(|t: String| t@),
                        module == module_name@,
                        module_trimmed@ == trim_of(module),
                        pairs_view(out) == filter_map_seq(
                            model.take(i as int),
                            |p: Seq<char>| from_binding(p, module),
                        ),
                    decreases parts@.len() - i,
                {
                    proof {
                        assert(model.take(i + 1).drop_last() =~= model.take(i as int));
                    }
                    match parse_import_part(parts[i].as_str()) {
                        Some((symbol_name, alias)) => {
                            if !crate::text::same_text(symbol_name.as_str(), "*") {
                                let alias = match alias {
                                    Some(a) => a,
                                    None => symbol_name.clone(),
                                };
                                let mut target = module_trimmed.clone();
                                target.append(".");
                                target.append(symbol_name.as_str());
                                out.push((alias, target));
                            }
                        },
                        None => {},
                    }
                    i = i + 1;
                    assert(pairs_view(out) =~= filter_map_seq(
                        model.take(i as int),
                        |p: Seq<char>| from_binding(p, module),
                    ));
                }
                assert(model.take(parts@.len() as int) =~= model);
                return out;
            },
            None => {
                return out;
            },
        }
    }
    out
}

// ---------------------------------------------------------------- signatures

/// `s` without its leading `c` characters, as `str::trim_start_matches(c)`.
pub open spec fn skip_leading(s: Seq<char>, c: char) -> Seq<char>
    decreases s.len(),
{
    if s.len() > 0 && s[0] == c {
        skip_leading(s.drop_first(), c)
    } else {
        s
    }
}

fn skip_leading_text(s: &str, c: char) -> (r: String)
    ensures
        r@ == skip_leading(s@, c),
{
    let cs = chars_of(s);
    let mut k: usize = 0;
    assert(cs@.skip(0) =~= cs@);
    while k < cs.len() && cs[k] == c
        invariant
            k <= cs@.len(),
            skip_leading(s@, c) == skip_leading(cs@.skip(k as int), c),
            cs@ == s@,
        decreases cs@.len() - k,
    {
        assert(cs@.skip(k as int).drop_first() =~= cs@.skip(k + 1));
        k = k + 1;
    }
    assert(cs@.skip(k as int) =~= cs@.subrange(k as int, cs@.len() as int));
    string_of(&cs, k, cs.len())
}

/// One parameter of a `def` header, or `None` for blanks and the bare `/`
/// and `*` markers.
pub open spec fn param_of(part: Seq<char>) -> Option<PartialParamV> {
    let item = trim_of(part);
    if item.len() == 0 || item == "/"@ || item == "*"@ {
        None
    } else {
        let (before_default, default) = split_assignment_of(item);
        let left = trim_of(skip_leading(trim_of(before_default), '*'));
        match split_on_top_level_of(left, ':') {
            Some((n, a)) => Some(
                PartialParamV {
                    name: trim_of(n),
                    type_annotation: Some(trim_of(a)),
                    has_default: default is Some,
                },
            ),
            None => Some(PartialParamV { name: left, type_annotation: None, has_default: default is Some }),
        }
    }
}

/// The typed form of an annotated parameter.
pub open spec fn typed_of(p: PartialParamV) -> Option<TypedParamV> {
    match p.type_annotation {
        Some(a) => Some(TypedParamV { name: p.name, type_annotation: a, has_default: p.has_default }),
        None => None,
    }
}

pub open spec fn all_annotated(params: Seq<PartialParamV>) -> bool
    decreases params.len(),
{
    if params.len() == 0 {
        true
    } else {
        all_annotated(params.drop_last()) && params.last().type_annotation is Some
    }
}

/// The signature that a parameter list and an optional return annotation
/// give: fully typed when every parameter is annotated and either a return
/// type is given or the list is empty, partially typed otherwise.
pub open spec fn signature_of(params: Seq<char>, return_type: Option<Seq<char>>, is_async: bool) -> SignatureV {
    let parts = split_top_level_of(params);
    let kept = filter_map_seq(parts, |p: Seq<char>| param_of(p));
    if (return_type is Some || parts.len() == 0) && all_annotated(kept) {
        SignatureV::Typed {
            params: filter_map_seq(kept, |p: PartialParamV| typed_of(p)),
            return_type: match return_type {
                Some(t) => t,
                None => "None"@,
            },
            is_async,
            is_generic: params.contains('['),
        }
    } else {
        SignatureV::PartiallyTyped { params: kept, return_type, is_async }
    }
}

fn parse_param(part: &str) -> (r: Option<PartialParam>)
    ensures
        match param_of(part@) {
            Some(p) => r matches Some(q) && q@ == p,
            None => r is None,
        },
{
    let item = trim_text(part);
    if item.as_str().unicode_len() == 0 || crate::text::same_text(item.as_str(), "/")
        || crate::text::same_text(item.as_str(), "*") {
        return None;
    }
    let (before_default, default) = split_top_level_assignment(item.as_str());
    let has_default = default.is_some();
    let trimmed = trim_text(before_default.as_str());
    let unstarred = skip_leading_text(trimmed.as_str(), '*');
    let left = trim_text(unstarred.as_str());
    match split_top_level_annotation(left.as_str()) {
        Some((n, a)) => Some(
            PartialParam {
                name: trim_text(n.as_str()),
                type_annotation: Some(trim_text(a.as_str())),
                has_default,
            },
        ),
        None => Some(PartialParam { name: left, type_annotation: None, has_default }),
    }
}

pub fn contains_char(s: &str, c: char) -> (r: bool)
    ensures
        r == s@.contains(c),
{
    let cs = chars_of(s);
    let mut i: usize = 0;
    while i < cs.len()
        invariant
            cs@ == s@,
            i <= cs@.len(),
            forall|j: int| 0 <= j < i ==> cs@[j] != c,
        decreases cs@.len() - i,
    {
        if cs[i] == c {
            return true;
        }
        i = i + 1;
    }
    false
}

pub fn build_signature(params: &str, return_type: Option<String>, is_async: bool) -> (r: Signature)
    ensures
        r@ == signature_of(params@, crate::schema::text_option_view(return_type), is_async),
{
    let parts = split_top_level(params);
    let ghost model = parts@.map_values(|t: String| t@);
    let mut partial_params: Vec<PartialParam> = Vec::new();
    let mut typed_params: Vec<TypedParam> = Vec::new();
    let mut all_typed = true;
    let mut i: usize = 0;
    while i < parts.len()
        invariant
            i <= parts@.len(),
            model == parts@.map_values(|t: String| t@),
            partial_params@.map_values(|p: PartialParam| p@) == filter_map_seq(
                model.take(i as int),
                |p: Seq<char>| param_of(p),
            ),
            typed_params@.map_values(|p: TypedParam| p@) == filter_map_seq(
                partial_params@.map_values(|p: PartialParam| p@),
                |p: PartialParamV| typed_of(p),
            ),
            all_typed == all_annotated(partial_params@.map_values(|p: PartialParam| p@)),
        decreases parts@.len() - i,
    {
        proof {
            assert(model.take(i + 1).drop_last() =~= model.take(i as int));
        }
        let ghost before = partial_params@.map_values(|p: PartialParam| p@);
        match parse_param(parts[i].as_str()) {
            Some(param) => {
                match &param.type_annotation {
                    Some(annotation) => {
                        typed_params.push(
                            TypedParam {
                                name: param.name.clone(),
                                type_annotation: annotation.clone(),
                                has_default: param.has_default,
                            },
                        );
                    },
                    None => {
                        all_typed = false;
                    },
                }
                partial_params.push(param);
                proof {
                    assert(partial_params@.map_values(|p: PartialParam| p@).drop_last() =~= before);
                }
            },
            None => {},
        }
        i = i + 1;
        assert(partial_params@.map_values(|p: PartialParam| p@) =~= filter_map_seq(
            model.take(i as int),
            |p: Seq<char>| param_of(p),
        ));
        assert(typed_params@.map_values(|p: TypedParam| p@) =~= filter_map_seq(
            partial_params@.map_values(|p: PartialParam| p@),
            |p: PartialParamV| typed_of(p),
        ));
    }
    assert(model.take(parts@.len() as int) =~= model);
    let fully_typed = (return_type.is_some() || parts.len() == 0) && all_typed;
    if fully_typed {
        let return_type = match return_type {
            Some(t) => t,
            None => String::from_str("None"),
        };
        Signature::Typed {
            params: typed_params,
            return_type,
            is_async,
            is_generic: contains_char(params, '['),
        }
    } else {
        Signature::PartiallyTyped { params: partial_params, return_type, is_async }
    }
}

// ---------------------------------------------------------------- class and def headers, calls

/// The capture groups of the first match of `pattern` in `text`, each the
/// matched text where the group took part; `None` where nothing matches.
pub uninterp spec fn regex_captures_of(pattern: Seq<char>, text: Seq<char>) -> Option<
    Seq<Option<Seq<char>>>,
>;

/// The capture groups of every successive non-overlapping match of
/// `pattern` in `text`.
pub uninterp spec fn regex_captures_iter_of(pattern: Seq<char>, text: Seq<char>) -> Seq<
    Seq<Option<Seq<char>>>,
>;

/// Compiles `pattern` with `regex::Regex::new` and calls `Regex::captures`
/// on `text`, listing every group (group 0 first) as its matched text. The
/// result is named, as a function of the pattern and the text alone; an
/// invalid pattern gives `None`, which the patterns of this module are not.
#[verifier::external_body]
fn regex_captures(pattern: &str, text: &str) -> (r: Option<Vec<Option<String>>>)
    ensures
        r.deep_view() == regex_captures_of(pattern@, text@),
{
    let regex = match regex::Regex::new(pattern) {
        Ok(regex) => regex,
        Err(_) => return None,
    };
    regex.captures(text).map(
        |captures| captures.iter().map(|group| group.map(|m| m.as_str().to_string())).collect(),
    )
}

/// Compiles `pattern` with `regex::Regex::new` and calls
/// `Regex::captures_iter` on `text`, listing the groups of each match as
/// `regex_captures` does. The result is named, as a function of the pattern
/// and the text alone; an invalid pattern gives no matches.
#[verifier::external_body]
fn regex_captures_iter(pattern: &str, text: &str) -> (r: Vec<Vec<Option<String>>>)
    ensures
        r.deep_view() == regex_captures_iter_of(pattern@, text@),
{
    let regex = match regex::Regex::new(pattern) {
        Ok(regex) => regex,
        Err(_) => return Vec::new(),
    };
    regex.captures_iter(text).map(
        |captures| captures.iter().map(|group| group.map(|m| m.as_str().to_string())).collect(),
    ).collect()
}

/// A class header: `class` and a name.
pub const CLASS_PATTERN: &'static str = r"^class\s+([A-Za-z_][A-Za-z0-9_]*)";

/// A def header: name, parameter list, optional return annotation.
pub const DEF_PATTERN: &'static str =
    r"^(?:async\s+def|def)\s+([A-Za-z_][A-Za-z0-9_]*)\s*\((.*)\)\s*(?:->\s*([^:]+))?:";

/// A call: a dotted name followed by an opening parenthesis.
pub const CALL_PATTERN: &'static str = r"([A-Za-z_][A-Za-z0-9_\.]*)\s*\(";

/// Group `i` of a match, where it took part.
pub open spec fn group_of(caps: Seq<Option<Seq<char>>>, i: int) -> Option<Seq<char>> {
    if 0 <= i < caps.len() {
        caps[i]
    } else {
        None
    }
}

fn group_text(caps: &Vec<Option<String>>, i: usize) -> (r: Option<String>)
    ensures
        crate::schema::text_option_view(r) == group_of(caps.deep_view(), i as int),
{
    if i < caps.len() {
        match &caps[i] {
            Some(t) => Some(t.clone()),
            None => None,
        }
    } else {
        None
    }
}

/// The class name that a match of the class pattern captured.
pub open spec fn class_name_in(caps: Option<Seq<Option<Seq<char>>>>) -> Option<Seq<char>> {
    match caps {
        Some(c) => group_of(c, 1),
        None => None,
    }
}

/// The class that a line opens, if it is a class header.
pub open spec fn class_name_of(trimmed: Seq<char>) -> Option<Seq<char>> {
    class_name_in(regex_captures_of(CLASS_PATTERN@, trimmed))
}

/// The class name in the captures of the class pattern on a line.
pub fn class_name_from_captures(caps: &Option<Vec<Option<String>>>) -> (r: Option<String>)
    ensures
        crate::schema::text_option_view(r) == class_name_in(caps.deep_view()),
{
    match caps {
        Some(c) => group_text(c, 1),
        None => None,
    }
}

pub fn parse_class_name(trimmed: &str) -> (r: Option<String>)
    ensures
        crate::schema::text_option_view(r) == class_name_of(trimmed@),
{
    let caps = regex_captures(CLASS_PATTERN, trimmed);
    class_name_from_captures(&caps)
}

/// The callable that a match of the def pattern on `trimmed` describes: its
/// name and the signature that its parameters and return annotation give.
pub open spec fn def_signature_in(caps: Option<Seq<Option<Seq<char>>>>, trimmed: Seq<char>) -> Option<(Seq<char>, SignatureV)> {
    match caps {
        Some(caps) => match group_of(caps, 1) {
            Some(name) => Some(
                (
                    name,
                    signature_of(
                        match group_of(caps, 2) {
                            Some(p) => p,
                            None => Seq::empty(),
                        },
                        match group_of(caps, 3) {
                            Some(t) => Some(trim_of(t)),
                            None => None,
                        },
                        starts_with(trimmed, "async def "@),
                    ),
                ),
            ),
            None => None,
        },
        None => None,
    }
}

/// The callable that a line opens, if it is a def header.
pub open spec fn def_signature_of(trimmed: Seq<char>) -> Option<(Seq<char>, SignatureV)> {
    def_signature_in(regex_captures_of(DEF_PATTERN@, trimmed), trimmed)
}

/// The name and signature in the captures of the def pattern on `trimmed`.
pub fn def_signature_from_captures(caps: &Option<Vec<Option<String>>>, trimmed: &str) -> (r: Option<(String, Signature)>)
    ensures
        match def_signature_in(caps.deep_view(), trimmed@) {
            Some((name, sig)) => r matches Some((n, s)) && n@ == name && s@ == sig,
            None => r is None,
        },
{
    let caps = match caps {
        Some(caps) => caps,
        None => {
            return None;
        },
    };
    let name = match group_text(caps, 1) {
        Some(name) => name,
        None => {
            return None;
        },
    };
    let params = match group_text(caps, 2) {
        Some(p) => p,
        None => String::new(),
    };
    let return_type = match group_text(caps, 3) {
        Some(t) => Some(trim_text(t.as_str())),
        None => None,
    };
    let is_async = starts_with_text(trimmed, "async def ");
    Some((name, build_signature(params.as_str(), return_type, is_async)))
}

pub fn parse_def_signature(trimmed: &str) -> (r: Option<(String, Signature)>)
    ensures
        match def_signature_of(trimmed@) {
            Some((name, sig)) => r matches Some((n, s)) && n@ == name && s@ == sig,
            None => r is None,
        },
{
    let caps = regex_captures(DEF_PATTERN, trimmed);
    def_signature_from_captures(&caps, trimmed)
}

/// Words that the call pattern matches but that are not calls.
pub open spec fn is_control_keyword(t: Seq<char>) -> bool {
    t == "if"@ || t == "for"@ || t == "while"@ || t == "return"@ || t == "with"@ || t == "match"@
        || t == "except"@
}

pub open spec fn call_token_of(caps: Seq<Option<Seq<char>>>) -> Option<Seq<char>> {
    match group_of(caps, 1) {
        Some(t) => if is_control_keyword(t) {
            None
        } else {
            Some(t)
        },
        None => None,
    }
}

/// The names that successive matches of the call pattern captured, in
/// order, keywords left out.
pub open spec fn call_tokens_in(all: Seq<Seq<Option<Seq<char>>>>) -> Seq<Seq<char>> {
    filter_map_seq(all, |caps: Seq<Option<Seq<char>>>| call_token_of(caps))
}

/// The names called on a line, in order, keywords left out.
pub open spec fn call_tokens_of(trimmed: Seq<char>) -> Seq<Seq<char>> {
    call_tokens_in(regex_captures_iter_of(CALL_PATTERN@, trimmed))
}

/// No token that the captures give is a keyword, and every captured name
/// that is not a keyword is a token.
pub proof fn lemma_call_tokens_in(all: Seq<Seq<Option<Seq<char>>>>)
    ensures
        forall|i: int| 0 <= i < call_tokens_in(all).len() ==> !is_control_keyword(#[trigger] call_tokens_in(all)[i]),
        forall|k: int|
            0 <= k < all.len() && (#[trigger] group_of(all[k], 1)) is Some && !is_control_keyword(
                group_of(all[k], 1)->0,
            ) ==> call_tokens_in(all).contains(group_of(all[k], 1)->0),
    decreases all.len(),
{
    if all.len() > 0 {
        let prev = all.drop_last();
        lemma_call_tokens_in(prev);
        let f = |caps: Seq<Option<Seq<char>>>| call_token_of(caps);
        let cur = call_tokens_in(all);
        let pt = call_tokens_in(prev);
        assert(cur == match f(all.last()) {
            Some(b) => pt.push(b),
            None => pt,
        });
        assert forall|i: int| 0 <= i < cur.len() implies !is_control_keyword(#[trigger] cur[i]) by {
            if i < pt.len() {
                assert(cur[i] == pt[i]);
            }
        }
        assert forall|k: int|
            0 <= k < all.len() && (#[trigger] group_of(all[k], 1)) is Some && !is_control_keyword(
                group_of(all[k], 1)->0,
            ) implies cur.contains(group_of(all[k], 1)->0) by {
            if k < prev.len() {
                assert(prev[k] == all[k]);
                assert(pt.contains(group_of(prev[k], 1)->0));
                let m = choose|m: int| 0 <= m < pt.len() && pt[m] == group_of(prev[k], 1)->0;
                assert(cur[m] == pt[m]);
            } else {
                assert(cur[pt.len() as int] == group_of(all[k], 1)->0);
            }
        }
    }
}

fn is_control_keyword_text(t: &str) -> (r: bool)
    ensures
        r == is_control_keyword(t@),
{
    crate::text::same_text(t, "if") || crate::text::same_text(t, "for") || crate::text::same_text(
        t,
        "while",
    ) || crate::text::same_text(t, "return") || crate::text::same_text(t, "with")
        || crate::text::same_text(t, "match") || crate::text::same_text(t, "except")
}

/// The call tokens in the captures of successive matches of the call
/// pattern.
pub fn call_tokens_from_captures(all: &Vec<Vec<Option<String>>>) -> (r: Vec<String>)
    ensures
        r@.map_values(|t: String| t@) == call_tokens_in(all.deep_view()),
{
    let ghost model = all.deep_view();
    let mut out: Vec<String> = Vec::new();
    let mut i: usize = 0;
    while i < all.len()
        invariant
            i <= all@.len(),
            model == all.deep_view(),
            out@.map_values(|t: String| t@) == filter_map_seq(
                model.take(i as int),
                |caps: Seq<Option<Seq<char>>>| call_token_of(caps),
            ),
        decreases all@.len() - i,
    {
        proof {
            assert(model.take(i + 1).drop_last() =~= model.take(i as int));
            assert(model[i as int] == all@[i as int].deep_view());
        }
        match group_text(&all[i], 1) {
            Some(token) => {
                if !is_control_keyword_text(token.as_str()) {
                    out.push(token);
                }
            },
            None => {},
        }
        i = i + 1;
        assert(out@.map_values(|t: String| t@) =~= filter_map_seq(
            model.take(i as int),
            |caps: Seq<Option<Seq<char>>>| call_token_of(caps),
        ));
    }
    assert(model.take(all@.len() as int) =~= model);
    out
}

pub fn extract_call_tokens(trimmed: &str) -> (r: Vec<String>)
    ensures
        r@.map_values(|t: String| t@) == call_tokens_of(trimmed@),
{
    let all = regex_captures_iter(CALL_PATTERN, trimmed);
    call_tokens_from_captures(&all)
}

// ---------------------------------------------------------------- small text rules

/// The part of a line before its first `#`.
pub open spec fn strip_comment_of(line: Seq<char>) -> Seq<char> {
    match find_from(line, seq!['#'], 0) {
        Some(k) => line.take(k),
        None => line,
    }
}

pub fn strip_comment(line: &str) -> (r: String)
    ensures
        r@ == strip_comment_of(line@),
{
    let cs = chars_of(line);
    let mut pat: Vec<char> = Vec::new();
    pat.push('#');
    assert(pat@ =~= seq!['#']);
    match find_text(&cs, &pat, 0) {
        Some(k) => {
            assert(cs@.take(k as int) =~= cs@.subrange(0, k as int));
            string_of(&cs, 0, k)
        },
        None => {
            assert(cs@.subrange(0, cs@.len() as int) =~= cs@);
            string_of(&cs, 0, cs.len())
        },
    }
}

/// The last dotted segment of a call token.
pub fn short_token(token: &str) -> (r: String)
    ensures
        r@ == after_last(token@, '.'),
{
    after_last_text(token, '.')
}

/// The number of leading space characters.
pub open spec fn leading_spaces_of(s: Seq<char>) -> int
    decreases s.len(),
{
    if s.len() > 0 && s[0] == ' ' {
        1 + leading_spaces_of(s.drop_first())
    } else {
        0
    }
}

pub fn leading_spaces(line: &str) -> (r: usize)
    ensures
        r == leading_spaces_of(line@),
{
    let cs = chars_of(line);
    let mut k: usize = 0;
    assert(cs@.skip(0) =~= cs@);
    while k < cs.len() && cs[k] == ' '
        invariant
            cs@ == line@,
            k <= cs@.len(),
            leading_spaces_of(line@) == k + leading_spaces_of(cs@.skip(k as int)),
        decreases cs@.len() - k,
    {
        assert(cs@.skip(k as int).drop_first() =~= cs@.skip(k + 1));
        k = k + 1;
    }
    k
}

/// `s` with its whitespace characters removed.
pub open spec fn without_spaces(s: Seq<char>) -> Seq<char>
    decreases s.len(),
{
    if s.len() == 0 {
        Seq::empty()
    } else if crate::text::is_space(s.last()) {
        without_spaces(s.drop_last())
    } else {
        without_spaces(s.drop_last()).push(s.last())
    }
}

/// The text a body hash covers: each line without its comment and without
/// whitespace, all run together.
pub open spec fn normalized_of(lines: Seq<Seq<char>>) -> Seq<char>
    decreases lines.len(),
{
    if lines.len() == 0 {
        Seq::empty()
    } else {
        normalized_of(lines.drop_last()) + without_spaces(strip_comment_of(lines.last()))
    }
}

/// The body hash of some lines: the lower-case hex SHA-256 of their
/// normalized text, so that formatting and comments do not change it.
pub open spec fn body_hash_of(lines: Seq<Seq<char>>) -> Seq<char> {
    crate::digest::hex_lower(crate::digest::sha256_of_text(normalized_of(lines)))
}

pub open spec fn texts_view(v: Vec<String>) -> Seq<Seq<char>> {
    v@.map_values(|t: String| t@)
}

pub fn hash_normalized_lines(lines: &Vec<String>) -> (r: String)
    ensures
        r@ == body_hash_of(texts_view(*lines)),
{
    let ghost model = texts_view(*lines);
    let mut normalized = String::new();
    let mut i: usize = 0;
    while i < lines.len()
        invariant
            i <= lines@.len(),
            model == texts_view(*lines),
            normalized@ == normalized_of(model.take(i as int)),
        decreases lines@.len() - i,
    {
        proof {
            assert(model.take(i + 1).drop_last() =~= model.take(i as int));
        }
        let stripped = strip_comment(lines[i].as_str());
        let cs = chars_of(stripped.as_str());
        let ghost start = normalized@;
        let mut j: usize = 0;
        while j < cs.len()
            invariant
                j <= cs@.len(),
                normalized@ == start + without_spaces(cs@.take(j as int)),
            decreases cs@.len() - j,
        {
            proof {
                assert(cs@.take(j + 1).drop_last() =~= cs@.take(j as int));
            }
            if !is_space_char(cs[j]) {
                push_char(&mut normalized, cs[j]);
            }
            j = j + 1;
            assert(normalized@ =~= start + without_spaces(cs@.take(j as int)));
        }
        assert(cs@.take(cs@.len() as int) =~= cs@);
        i = i + 1;
    }
    assert(model.take(lines@.len() as int) =~= model);
    let digest = crate::digest::sha256_text(normalized.as_str());
    crate::digest::hex_encode(digest.as_slice())
}

// ---------------------------------------------------------------- paths

/// Directories that the scan never enters.
pub open spec fn is_ignored_name(name: Seq<char>) -> bool {
    name == ".git"@ || name == "__pycache__"@ || name == ".venv"@ || name == "node_modules"@
        || name == "target"@ || name == "dist"@ || name == "build"@
}

/// Whether the scan enters a path with this file name; a path without a
/// readable name is entered.
pub fn should_visit_path(file_name: Option<String>) -> (r: bool)
    ensures
        r == match file_name {
            Some(name) => !is_ignored_name(name@),
            None => true,
        },
{
    match file_name {
        Some(name) => {
            let n = name.as_str();
            !(crate::text::same_text(n, ".git") || crate::text::same_text(n, "__pycache__")
                || crate::text::same_text(n, ".venv") || crate::text::same_text(n, "node_modules")
                || crate::text::same_text(n, "target") || crate::text::same_text(n, "dist")
                || crate::text::same_text(n, "build"))
        },
        None => true,
    }
}

/// `s` with every `from` replaced by `to`.
pub open spec fn replace_char(s: Seq<char>, from: char, to: char) -> Seq<char> {
    Seq::new(s.len(), |i: int| if s[i] == from { to } else { s[i] })
}

fn replace_char_text(s: &str, from: char, to: char) -> (r: String)
    ensures
        r@ == replace_char(s@, from, to),
{
    let cs = chars_of(s);
    let mut out = String::new();
    let mut i: usize = 0;
    while i < cs.len()
        invariant
            cs@ == s@,
            i <= cs@.len(),
            out@ == replace_char(cs@.take(i as int), from, to),
        decreases cs@.len() - i,
    {
        if cs[i] == from {
            push_char(&mut out, to);
        } else {
            push_char(&mut out, cs[i]);
        }
        i = i + 1;
        assert(out@ =~= replace_char(cs@.take(i as int), from, to));
    }
    assert(cs@.take(cs@.len() as int) =~= cs@);
    out
}

/// `s` without every trailing `.py`, as `str::trim_end_matches(".py")`.
pub open spec fn without_py_suffixes(s: Seq<char>) -> Seq<char>
    decreases s.len(),
{
    if s.len() >= 3 && s[s.len() - 3] == '.' && s[s.len() - 2] == 'p' && s[s.len() - 1] == 'y' {
        without_py_suffixes(s.take(s.len() - 3))
    } else {
        s
    }
}

fn without_py_suffixes_text(s: &str) -> (r: String)
    ensures
        r@ == without_py_suffixes(s@),
{
    let cs = chars_of(s);
    let mut end = cs.len();
    assert(cs@.take(end as int) =~= cs@);
    while end >= 3 && cs[end - 3] == '.' && cs[end - 2] == 'p' && cs[end - 1] == 'y'
        invariant
            end <= cs@.len(),
            without_py_suffixes(s@) == without_py_suffixes(cs@.take(end as int)),
            cs@ == s@,
        decreases end,
    {
        assert(cs@.take(end as int).take(end - 3) =~= cs@.take(end - 3));
        end = end - 3;
    }
    assert(cs@.take(end as int) =~= cs@.subrange(0, end as int));
    string_of(&cs, 0, end)
}

/// A path component as a module name segment.
pub open spec fn module_segment_of(component: Seq<char>) -> Seq<char> {
    replace_char(without_py_suffixes(component), '-', '_')
}

/// Segments joined by dots.
pub open spec fn join_dotted(parts: Seq<Seq<char>>) -> Seq<char>
    decreases parts.len(),
{
    if parts.len() == 0 {
        Seq::empty()
    } else if parts.len() == 1 {
        parts[0]
    } else {
        join_dotted(parts.drop_last()) + "."@ + parts.last()
    }
}

/// The module segments of a relative path's readable components, with a
/// trailing `__init__` dropped.
pub open spec fn module_segments_of(components: Seq<Option<Seq<char>>>) -> Seq<Seq<char>> {
    let segments = filter_map_seq(
        components,
        |c: Option<Seq<char>>|
            match c {
                Some(t) => Some(module_segment_of(t)),
                None => None,
            },
    );
    if segments.len() > 0 && segments.last() == "__init__"@ {
        segments.drop_last()
    } else {
        segments
    }
}

/// The dotted module name of a file, from the components of its path
/// relative to the project root; the root's own name, or `project`, where
/// nothing is left.
pub open spec fn module_fqn_of(root_name: Option<Seq<char>>, components: Seq<Option<Seq<char>>>) -> Seq<char> {
    let segments = module_segments_of(components);
    if segments.len() == 0 {
        replace_char(
            match root_name {
                Some(n) => n,
                None => "project"@,
            },
            '-',
            '_',
        )
    } else {
        join_dotted(segments)
    }
}

pub fn module_fqn_for_path(root_name: Option<String>, components: &Vec<Option<String>>) -> (r: String)
    ensures
        r@ == module_fqn_of(
            crate::schema::text_option_view(root_name),
            components@.map_values(|c: Option<String>| crate::schema::text_option_view(c)),
        ),
{
    let ghost model = components@.map_values(|c: Option<String>| crate::schema::text_option_view(c));
    let ghost seg_fn = |c: Option<Seq<char>>|
        match c {
            Some(t) => Some(module_segment_of(t)),
            None => None,
        };
    let mut segments: Vec<String> = Vec::new();
    let mut i: usize = 0;
    while i < components.len()
        invariant
            i <= components@.len(),
            model == components@.map_values(|c: Option<String>| crate::schema::text_option_view(c)),
            texts_view(segments) == filter_map_seq(model.take(i as int), seg_fn),
            seg_fn == (|c: Option<Seq<char>>|
                match c {
                    Some(t) => Some(module_segment_of(t)),
                    None => None,
                }),
        decreases components@.len() - i,
    {
        proof {
            assert(model.take(i + 1).drop_last() =~= model.take(i as int));
        }
        match &components[i] {
            Some(c) => {
                let trimmed = without_py_suffixes_text(c.as_str());
                let segment = replace_char_text(trimmed.as_str(), '-', '_');
                segments.push(segment);
            },
            None => {},
        }
        i = i + 1;
        assert(texts_view(segments) =~= filter_map_seq(model.take(i as int), seg_fn));
    }
    assert(model.take(components@.len() as int) =~= model);
    if segments.len() > 0 && crate::text::same_text(segments[segments.len() - 1].as_str(), "__init__") {
        segments.pop();
        assert(texts_view(segments) =~= module_segments_of(model));
    }
    if segments.len() == 0 {
        let name = match root_name {
            Some(n) => n,
            None => String::from_str("project"),
        };
        return replace_char_text(name.as_str(), '-', '_');
    }
    let mut joined = segments[0].clone();
    let mut k: usize = 1;
    assert(texts_view(segments).take(1) =~= seq![texts_view(segments)[0]]);
    while k < segments.len()
        invariant
            1 <= k <= segments@.len(),
            joined@ == join_dotted(texts_view(segments).take(k as int)),
        decreases segments@.len() - k,
    {
        proof {
            assert(texts_view(segments).take(k + 1).drop_last() =~= texts_view(segments).take(k as int));
        }
        joined.append(".");
        joined.append(segments[k].as_str());
        k = k + 1;
    }
    assert(texts_view(segments).take(segments@.len() as int) =~= texts_view(segments));
    joined
}

/// `s` without every leading `./`, as `str::trim_start_matches("./")`.
pub open spec fn without_dot_slashes(s: Seq<char>) -> Seq<char>
    decreases s.len(),
{
    if s.len() >= 2 && s[0] == '.' && s[1] == '/' {
        without_dot_slashes(s.skip(2))
    } else {
        s
    }
}

/// A relative path with forward slashes and no leading `./`.
pub open spec fn normalized_path_of(lossy: Seq<char>) -> Seq<char> {
    without_dot_slashes(replace_char(lossy, '\\', '/'))
}

pub fn normalize_rel_path(lossy: &str) -> (r: String)
    ensures
        r@ == normalized_path_of(lossy@),
{
    let slashed = replace_char_text(lossy, '\\', '/');
    let cs = chars_of(slashed.as_str());
    let mut start: usize = 0;
    assert(cs@.skip(0) =~= cs@);
    while cs.len() - start >= 2 && cs[start] == '.' && cs[start + 1] == '/'
        invariant
            start <= cs@.len(),
            cs@ == slashed@,
            without_dot_slashes(slashed@) == without_dot_slashes(cs@.skip(start as int)),
        decreases cs@.len() - start,
    {
        assert(cs@.skip(start as int).skip(2) =~= cs@.skip(start + 2));
        start = start + 2;
    }
    assert(cs@.skip(start as int) =~= cs@.subrange(start as int, cs@.len() as int));
    string_of(&cs, start, cs.len())
}

// ---------------------------------------------------------------- lines

/// The state of a left-to-right split into lines.
pub struct LineSplit {
    pub lines: Seq<Seq<char>>,
    pub current: Seq<char>,
}

pub open spec fn line_split_run(s: Seq<char>) -> LineSplit
    decreases s.len(),
{
    if s.len() == 0 {
        LineSplit { lines: Seq::empty(), current: Seq::empty() }
    } else {
        let st = line_split_run(s.drop_last());
        if s.last() == '\n' {
            let line = if st.current.len() > 0 && st.current.last() == '\r' {
                st.current.drop_last()
            } else {
                st.current
            };
            LineSplit { lines: st.lines.push(line), current: Seq::empty() }
        } else {
            LineSplit { current: st.current.push(s.last()), ..st }
        }
    }
}

/// The lines of a text, as `str::lines` gives them: split at `\n`, a `\r`
/// right before the `\n` dropped, and no empty line after a final `\n`.
pub open spec fn lines_of(s: Seq<char>) -> Seq<Seq<char>> {
    let st = line_split_run(s);
    if st.current.len() > 0 {
        st.lines.push(st.current)
    } else {
        st.lines
    }
}

pub fn split_lines(source: &str) -> (r: Vec<String>)
    ensures
        texts_view(r) == lines_of(source@),
{
    let cs = chars_of(source);
    let mut lines: Vec<String> = Vec::new();
    let mut current: Vec<char> = Vec::new();
    let mut i: usize = 0;
    while i < cs.len()
        invariant
            cs@ == source@,
            i <= cs@.len(),
            texts_view(lines) == line_split_run(cs@.take(i as int)).lines,
            current@ == line_split_run(cs@.take(i as int)).current,
        decreases cs@.len() - i,
    {
        proof {
            assert(cs@.take(i + 1).drop_last() =~= cs@.take(i as int));
        }
        if cs[i] == '\n' {
            let end = if current.len() > 0 && current[current.len() - 1] == '\r' {
                current.len() - 1
            } else {
                current.len()
            };
            let line = string_of(&current, 0, end);
            assert(line@ =~= (if current@.len() > 0 && current@.last() == '\r' {
                current@.drop_last()
            } else {
                current@
            }));
            lines.push(line);
            current = Vec::new();
        } else {
            current.push(cs[i]);
        }
        i = i + 1;
        assert(texts_view(lines) =~= line_split_run(cs@.take(i as int)).lines);
        assert(current@ =~= line_split_run(cs@.take(i as int)).current);
    }
    assert(cs@.take(cs@.len() as int) =~= cs@);
    if current.len() > 0 {
        let line = string_of(&current, 0, current.len());
        assert(line@ =~= current@);
        lines.push(line);
    }
    assert(texts_view(lines) =~= lines_of(source@));
    lines
}

} // verus!
