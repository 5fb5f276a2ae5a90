//! Deriving an accept classifier for an enumeration from per-variant tags.
//!
//! A variant is tagged accepting by a bare `accept` attribute. The tag may
//! stand only on a variant without fields, at most once per variant, and
//! the derivation applies to enumerations only. The result is a table with
//! one flag per variant: the classifier accepts exactly the tagged ones.
use vstd::prelude::*;

verus! {

/// What the derivation reads of one attribute of a variant.
#[derive(Clone, Copy, Debug, PartialEq, Eq)]
pub enum Attribute {
    /// The bare accept tag.
    Accept,
    /// The accept tag with arguments after its name.
    AcceptWithArguments,
    /// Any attribute other than the accept tag.
    Other,
}

/// What the derivation reads of one variant of an enumeration.
#[derive(Clone, Debug)]
pub struct Variant {
    pub has_fields: bool,
    pub attributes: Vec<Attribute>,
}

/// The kind of type declaration that the derivation is asked for.
#[derive(Clone, Debug)]
pub enum Declaration {
    Enum(Vec<Variant>),
    Struct,
    Union,
}

/// Why a declaration cannot have its classifier derived.
#[derive(Clone, Copy, Debug, PartialEq, Eq)]
pub enum DeriveError {
    /// The declaration is not an enumeration.
    NotAnEnum,
    /// An accept tag carries arguments.
    AcceptWithArguments,
    /// An accept tag stands on a variant with fields.
    AcceptOnVariantWithFields,
    /// A variant is tagged more than once.
    AcceptRepeated,
}

/// The attribute is an accept tag, with or without arguments.
pub open spec fn is_tag(a: Attribute) -> bool {
    a != Attribute::Other
}

/// `is_tag` as a predicate value.
pub open spec fn tag_pred() -> spec_fn(Attribute) -> bool {
    |a: Attribute| is_tag(a)
}

/// The accept tags among `attributes`, in order.
pub open spec fn tags(attributes: Seq<Attribute>) -> Seq<Attribute> {
    attributes.filter(tag_pred())
}

/// The variant carries at least one accept tag.
pub open spec fn is_tagged(v: Variant) -> bool {
    tags(v.attributes@).len() > 0
}

/// What is wrong with the tags of one variant, found in attribute order:
/// a tag with arguments, a tag on a variant with fields, a second tag.
pub open spec fn variant_fault(v: Variant) -> Option<DeriveError> {
    let t = tags(v.attributes@);
    if t.len() == 0 {
        None
    } else if t[0] == Attribute::AcceptWithArguments {
        Some(DeriveError::AcceptWithArguments)
    } else if v.has_fields {
        Some(DeriveError::AcceptOnVariantWithFields)
    } else if t.len() == 1 {
        None
    } else if t[1] == Attribute::AcceptWithArguments {
        Some(DeriveError::AcceptWithArguments)
    } else {
        Some(DeriveError::AcceptRepeated)
    }
}

/// The fault of the first faulty variant is `e`.
pub open spec fn first_fault(variants: Seq<Variant>, e: DeriveError) -> bool {
    exists|i: int|
        0 <= i < variants.len() && variant_fault(#[trigger] variants[i]) == Some(e) && forall|
            j: int,
        |
            0 <= j < i ==> variant_fault(#[trigger] variants[j]) is None
}

/// `r` is what the derivation gives for `variants`: when no variant's tags
/// are wrong, one flag per variant, set exactly on the tagged ones;
/// otherwise the fault of the first variant whose tags are wrong.
pub open spec fn derives(variants: Seq<Variant>, r: Result<Vec<bool>, DeriveError>) -> bool {
    match r {
        Ok(flags) => {
            &&& forall|i: int| 0 <= i < variants.len() ==> variant_fault(#[trigger] variants[i]) is None
            &&& flags@.len() == variants.len()
            &&& forall|i: int| 0 <= i < variants.len() ==> flags@[i] == is_tagged(#[trigger] variants[i])
        },
        Err(e) => first_fault(variants, e),
    }
}

/// Whether one variant is tagged, or what is wrong with its tags.
fn variant_accepted(v: &Variant) -> (r: Result<bool, DeriveError>)
    ensures
        r == (match variant_fault(*v) {
            Some(e) => Err(e),
            None => Ok(is_tagged(*v)),
        }),
{
    let ghost attrs = v.attributes@;
    let mut tagged = false;
    let mut j: usize = 0;
    while j < v.attributes.len()
        invariant
            j <= attrs.len(),
            attrs == v.attributes@,
            tagged == (tags(attrs.take(j as int)).len() > 0),
            tagged ==> tags(attrs.take(j as int)).len() == 1 && tags(attrs.take(j as int))[0] == Attribute::Accept && !v.has_fields,
        decreases attrs.len() - j,
    {
        proof {
            assert(attrs.take(j + 1) == attrs.take(j as int).push(attrs[j as int]));
            attrs.take(j as int).lemma_filter_push(attrs[j as int], tag_pred());
        }
        match v.attributes[j] {
            Attribute::Other => {},
            Attribute::AcceptWithArguments => {
                proof {
                    lemma_tags_prefix(attrs, j as int + 1);
                    let t = tags(attrs.take(j as int + 1));
                    if tagged {
                        assert(tags(attrs)[0] == t[0]);
                        assert(tags(attrs)[1] == t[1]);
                    } else {
                        assert(tags(attrs)[0] == t[0]);
                    }
                }
                return Err(DeriveError::AcceptWithArguments);
            },
            Attribute::Accept => {
                if v.has_fields {
                    proof {
                        lemma_tags_prefix(attrs, j as int + 1);
                        assert(tags(attrs)[0] == tags(attrs.take(j as int + 1))[0]);
                    }
                    return Err(DeriveError::AcceptOnVariantWithFields);
                }
                if tagged {
                    proof {
                        lemma_tags_prefix(attrs, j as int + 1);
                        let t = tags(attrs.take(j as int + 1));
                        assert(tags(attrs)[0] == t[0]);
                        assert(tags(attrs)[1] == t[1]);
                    }
                    return Err(DeriveError::AcceptRepeated);
                }
                tagged = true;
            },
        }
        j = j + 1;
    }
    proof {
        assert(attrs.take(j as int) == attrs);
    }
    Ok(tagged)
}

/// One flag per variant, set exactly on the tagged variants; or the fault
/// of the first variant whose tags are wrong.
pub fn accepted_variants(variants: &Vec<Variant>) -> (r: Result<Vec<bool>, DeriveError>)
    ensures
        derives(variants@, r),
{
    let mut flags: Vec<bool> = Vec::new();
    let mut i: usize = 0;
    while i < variants.len()
        invariant
            i <= variants@.len(),
            flags@.len() == i,
            forall|k: int| 0 <= k < i ==> variant_fault(#[trigger] variants@[k]) is None,
            forall|k: int| 0 <= k < i ==> flags@[k] == is_tagged(#[trigger] variants@[k]),
        decreases variants@.len() - i,
    {
        match variant_accepted(&variants[i]) {
            Ok(tagged) => {
                flags.push(tagged);
            },
            Err(e) => {
                assert(variant_fault(variants@[i as int]) == Some(e));
                return Err(e);
            },
        }
        i = i + 1;
    }
    Ok(flags)
}

/// The accept table of a declaration: defined for enumerations only.
pub fn accept_table(declaration: &Declaration) -> (r: Result<Vec<bool>, DeriveError>)
    ensures
        match declaration {
            Declaration::Enum(variants) => derives(variants@, r),
            _ => r == Err::<Vec<bool>, DeriveError>(DeriveError::NotAnEnum),
        },
{
    match declaration {
        Declaration::Enum(variants) => accepted_variants(variants),
        _ => Err(DeriveError::NotAnEnum),
    }
}

/// The tags of a prefix are a prefix of the tags.
proof fn lemma_tags_prefix(attrs: Seq<Attribute>, n: int)
    requires
        0 <= n <= attrs.len(),
    ensures
        tags(attrs).len() >= tags(attrs.take(n)).len(),
        forall|k: int| 0 <= k < tags(attrs.take(n)).len() ==> tags(attrs)[k] == #[trigger] tags(attrs.take(n))[k],
{
    assert(attrs == attrs.take(n) + attrs.skip(n));
    Seq::filter_distributes_over_add(attrs.take(n), attrs.skip(n), tag_pred());
}

} // verus!
