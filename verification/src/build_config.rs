//! Declarative build configuration: which attributes to inject on which
//! generated types and fields. The expansion of options into per-path
//! attribute text is computed here; feeding the pairs to the schema
//! compiler is the caller's affair.
use vstd::prelude::*;

verus! {

/// One batch of attributes to put on a list of type or field paths.
pub struct BuildOption {
    /// the paths to put the attributes on
    pub paths: Vec<String>,
    /// description of the option
    pub description: String,
    /// the attributes, written without the surrounding `#[...]`
    pub attrs: Vec<String>,
}

/// The whole build configuration.
pub struct BuildConfig {
    /// include dirs for the schema files
    pub includes: Vec<String>,
    /// the schema files
    pub files: Vec<String>,
    /// dir for generated code, or none to let the environment decide
    pub output: Option<String>,
    /// options for generated composite types
    pub messages: Vec<BuildOption>,
    /// options for generated enumerations
    pub enums: Vec<BuildOption>,
    /// options for single fields
    pub fields: Vec<BuildOption>,
    /// paths whose byte fields use the shared buffer type
    pub bytes: Vec<String>,
    /// paths whose maps become ordered maps
    pub btree_maps: Vec<String>,
}

impl Default for BuildOption {
    fn default() -> (d: Self)
        ensures
            d.paths@ == Seq::<String>::empty(),
            d.description@ == Seq::<char>::empty(),
            d.attrs@ == Seq::<String>::empty(),
    {
        BuildOption { paths: Vec::new(), description: String::new(), attrs: Vec::new() }
    }
}

impl Default for BuildConfig {
    fn default() -> (d: Self)
        ensures
            d.includes@ == Seq::<String>::empty(),
            d.files@ == Seq::<String>::empty(),
            d.output is None,
            d.messages@ == Seq::<BuildOption>::empty(),
            d.enums@ == Seq::<BuildOption>::empty(),
            d.fields@ == Seq::<BuildOption>::empty(),
            d.bytes@ == Seq::<String>::empty(),
            d.btree_maps@ == Seq::<String>::empty(),
    {
        BuildConfig {
            includes: Vec::new(),
            files: Vec::new(),
            output: None,
            messages: Vec::new(),
            enums: Vec::new(),
            fields: Vec::new(),
            bytes: Vec::new(),
            btree_maps: Vec::new(),
        }
    }
}

/// One attribute line: `attr` wrapped in `#[...]`.
pub open spec fn spec_wrapped(a: Seq<char>) -> Seq<char> {
    seq!['#', '['] + a + seq![']']
}

/// The attribute text of a list of attributes: each wrapped in `#[...]`,
/// joined by newlines.
pub open spec fn spec_to_attr(attrs: Seq<Seq<char>>) -> Seq<char>
    decreases attrs.len(),
{
    if attrs.len() == 0 {
        Seq::<char>::empty()
    } else if attrs.len() == 1 {
        spec_wrapped(attrs[0])
    } else {
        spec_to_attr(attrs.drop_last()) + seq!['\n'] + spec_wrapped(attrs.last())
    }
}

/// Renders a list of attributes as the text handed to the schema
/// compiler: each wrapped in `#[...]`, joined by newlines.
pub fn to_attr(attrs: &[String]) -> (r: String)
    ensures
        r@ == spec_to_attr(attrs.deep_view()),
{
    let ghost dv = attrs.deep_view();
    let mut r = String::new();
    proof {
        assert(dv.take(0) =~= Seq::<Seq<char>>::empty());
    }
    let n = attrs.len();
    let mut i: usize = 0;
    while i < n
        invariant
            0 <= i <= n,
            n == attrs@.len(),
            dv == attrs.deep_view(),
            r@ == spec_to_attr(dv.take(i as int)),
        decreases n - i,
    {
        if i > 0 {
            r.append("\n");
        }
        r.append("#[");
        r.append(attrs[i].as_str());
        r.append("]");
        proof {
            reveal_strlit("\n");
            reveal_strlit("#[");
            reveal_strlit("]");
            assert(("\n")@ =~= seq!['\n']);
            assert(("#[")@ =~= seq!['#', '[']);
            assert(("]")@ =~= seq![']']);
            assert(dv.take(i + 1).drop_last() =~= dv.take(i as int));
            assert(dv.take(i + 1).last() == dv[i as int]);
            assert(r@ =~= spec_to_attr(dv.take(i + 1)));
        }
        i = i + 1;
    }
    proof {
        assert(dv.take(n as int) =~= dv);
    }
    r
}

/// One path together with the attribute text to put on it.
pub struct AttrPair {
    pub path: String,
    pub attr: String,
}

/// The pairs one option expands to: its attribute text on each of its
/// paths.
pub open spec fn spec_pairs_of(o: BuildOption) -> Seq<(Seq<char>, Seq<char>)> {
    Seq::new(o.paths@.len(), |i: int| (o.paths@[i]@, spec_to_attr(o.attrs.deep_view())))
}

/// The pairs a list of options expands to, in option order then path
/// order.
pub open spec fn spec_expand(opts: Seq<BuildOption>) -> Seq<(Seq<char>, Seq<char>)>
    decreases opts.len(),
{
    if opts.len() == 0 {
        Seq::<(Seq<char>, Seq<char>)>::empty()
    } else {
        spec_expand(opts.drop_last()) + spec_pairs_of(opts.last())
    }
}

/// Expands a list of options into the path-attribute pairs handed to the
/// schema compiler, keeping option order and, within an option, path
/// order.
pub fn attribute_pairs(opts: &Vec<BuildOption>) -> (pairs: Vec<AttrPair>)
    ensures
        pairs@.len() == spec_expand(opts@).len(),
        forall|k: int|
            0 <= k < pairs@.len() ==> ((#[trigger] pairs@[k]).path@, pairs@[k].attr@)
                == spec_expand(opts@)[k],
{
    let mut pairs: Vec<AttrPair> = Vec::new();
    let mut i: usize = 0;
    while i < opts.len()
        invariant
            0 <= i <= opts@.len(),
            pairs@.len() == spec_expand(opts@.take(i as int)).len(),
            forall|k: int|
                0 <= k < pairs@.len() ==> ((#[trigger] pairs@[k]).path@, pairs@[k].attr@)
                    == spec_expand(opts@.take(i as int))[k],
        decreases opts@.len() - i,
    {
        let ghost done = spec_expand(opts@.take(i as int));
        let opt = &opts[i];
        let mut j: usize = 0;
        while j < opt.paths.len()
            invariant
                0 <= j <= opt.paths@.len(),
                opt == &opts@[i as int],
                0 <= i < opts@.len(),
                done == spec_expand(opts@.take(i as int)),
                pairs@.len() == done.len() + j,
                forall|k: int|
                    0 <= k < done.len() ==> ((#[trigger] pairs@[k]).path@, pairs@[k].attr@)
                        == done[k],
                forall|k: int|
                    done.len() <= k < pairs@.len() ==> ((#[trigger] pairs@[k]).path@,
                    pairs@[k].attr@) == spec_pairs_of(opts@[i as int])[k - done.len()],
            decreases opt.paths@.len() - j,
        {
            let pair = AttrPair {
                path: opt.paths[j].clone(),
                attr: to_attr(opt.attrs.as_slice()),
            };
            pairs.push(pair);
            j = j + 1;
        }
        proof {
            assert(opts@.take(i + 1).drop_last() =~= opts@.take(i as int));
            assert(opts@.take(i + 1).last() == opts@[i as int]);
            assert(spec_expand(opts@.take(i + 1)) =~= done + spec_pairs_of(opts@[i as int]));
        }
        i = i + 1;
    }
    proof {
        assert(opts@.take(opts@.len() as int) =~= opts@);
    }
    pairs
}

} // verus!
