use vstd::prelude::*;

use crate::model::{kind_name, Bundle, Reference, ReferenceSource};
use crate::text::{decimal, decimal_string, opt_str, str_views};

verus! {

/// The strings of `s` with `sep` between each two.
pub open spec fn joined(s: Seq<Seq<char>>, sep: Seq<char>) -> Seq<char>
    decreases s.len(),
{
    if s.len() == 0 {
        Seq::empty()
    } else if s.len() == 1 {
        s[0]
    } else {
        joined(s.drop_last(), sep) + sep + s.last()
    }
}

pub fn join_strings(v: &Vec<String>, sep: &str) -> (r: String)
    ensures
        r@ == joined(str_views(v@), sep@),
{
    let ghost vs = str_views(v@);
    let mut out = String::new();
    let mut i: usize = 0;
    assert(vs.subrange(0, 0) =~= Seq::<Seq<char>>::empty());
    while i < v.len()
        invariant
            vs == str_views(v@),
            i <= v@.len(),
            out@ == joined(vs.subrange(0, i as int), sep@),
        decreases v@.len() - i,
    {
        let ghost next = vs.subrange(0, i as int + 1);
        assert(next.drop_last() =~= vs.subrange(0, i as int));
        if i > 0 {
            out.append(sep);
        }
        out.append(v[i].as_str());
        proof {
            if i == 0 {
                assert(out@ =~= next[0]);
            }
        }
        assert(out@ =~= joined(next, sep@));
        i = i + 1;
    }
    assert(vs.subrange(0, v@.len() as int) =~= vs);
    out
}

/// ` [a, b]` for tags `a` and `b`; nothing without tags.
pub open spec fn tags_suffix(tags: Seq<Seq<char>>) -> Seq<char> {
    if tags.len() == 0 {
        ""@
    } else {
        " ["@ + joined(tags, ", "@) + "]"@
    }
}

/// ` - d` for description `d`; nothing without one.
pub open spec fn description_suffix(d: Option<String>) -> Seq<char> {
    match d {
        Some(x) => " - "@ + x@,
        None => ""@,
    }
}

fn append_tags(out: &mut String, tags: &Vec<String>)
    ensures
        final(out)@ == old(out)@ + tags_suffix(str_views(tags@)),
{
    if tags.len() > 0 {
        out.append(" [");
        let j = join_strings(tags, ", ");
        out.append(j.as_str());
        out.append("]");
    } else {
        out.append("");
    }
}

fn append_description(out: &mut String, d: &Option<String>)
    ensures
        final(out)@ == old(out)@ + description_suffix(*d),
{
    match d {
        Some(x) => {
            out.append(" - ");
            out.append(x.as_str());
        },
        None => {
            out.append("");
        },
    }
}

/// One reference in a listing: `[registry: ]name (kind)[ - description][ [tags]]`.
pub open spec fn reference_line_text(r: Reference, registry: Option<Seq<char>>) -> Seq<char> {
    (match registry {
        Some(g) => g + ": "@,
        None => ""@,
    }) + r.name@ + " ("@ + kind_name(r.kind) + ")"@ + description_suffix(r.description) + tags_suffix(
        str_views(r.tags@),
    )
}

pub fn reference_line(r: &Reference, registry: Option<&str>) -> (t: String)
    ensures
        t@ == reference_line_text(*r, opt_str(registry)),
{
    let mut out = String::new();
    match registry {
        Some(g) => {
            out.append(g);
            out.append(": ");
        },
        None => {
            out.append("");
        },
    }
    out.append(r.name.as_str());
    out.append(" (");
    out.append(r.kind.as_str());
    out.append(")");
    append_description(&mut out, &r.description);
    append_tags(&mut out, &r.tags);
    out
}

/// One bundle in a listing: `name (n refs)[ - description][ [tags]]`.
pub open spec fn bundle_line_text(b: Bundle) -> Seq<char> {
    b.name@ + " ("@ + decimal(b.references@.len()) + " refs)"@ + description_suffix(b.description)
        + tags_suffix(str_views(b.tags@))
}

pub fn bundle_line(b: &Bundle) -> (t: String)
    ensures
        t@ == bundle_line_text(*b),
{
    let mut out = String::from_str(b.name.as_str());
    out.append(" (");
    let n = decimal_string(b.references.len() as u64);
    out.append(n.as_str());
    out.append(" refs)");
    append_description(&mut out, &b.description);
    append_tags(&mut out, &b.tags);
    out
}

/// Where a reference comes from, as shown to a reader: the local path, or
/// the URL with its ref when one is set.
pub open spec fn source_text(s: ReferenceSource) -> Seq<char> {
    match s {
        ReferenceSource::Local { path } => path@,
        ReferenceSource::Git { url, git_ref, .. } => match git_ref {
            Some(g) => url@ + " (ref: "@ + g@ + ")"@,
            None => url@,
        },
        ReferenceSource::Remote { url } => url@,
    }
}

pub fn source_line(s: &ReferenceSource) -> (t: String)
    ensures
        t@ == source_text(*s),
{
    match s {
        ReferenceSource::Local { path } => {
            let t = String::from_str(path.as_str());
            assert(t@ == source_text(*s));
            t
        },
        ReferenceSource::Git { url, git_ref, .. } => {
            let mut out = String::from_str(url.as_str());
            match git_ref {
                Some(g) => {
                    out.append(" (ref: ");
                    out.append(g.as_str());
                    out.append(")");
                },
                None => {},
            }
            assert(out@ == source_text(*s));
            out
        },
        ReferenceSource::Remote { url } => {
            let t = String::from_str(url.as_str());
            assert(t@ == source_text(*s));
            t
        },
    }
}

/// A list, or `(none)` when it is empty.
pub open spec fn list_or_none(s: Seq<Seq<char>>) -> Seq<char> {
    if s.len() == 0 {
        "(none)"@
    } else {
        joined(s, ", "@)
    }
}

/// The details of a reference handed to an agent.
pub open spec fn reference_details_text(r: Reference) -> Seq<char> {
    "Name: "@ + r.name@ + "\nKind: "@ + kind_name(r.kind) + "\nSource: "@ + source_text(r.source)
        + "\nDescription: "@ + (match r.description {
        Some(d) => d@,
        None => "(none)"@,
    }) + "\nTags: "@ + list_or_none(str_views(r.tags@))
}

fn list_text(v: &Vec<String>) -> (t: String)
    ensures
        t@ == list_or_none(str_views(v@)),
{
    if v.len() == 0 {
        String::from_str("(none)")
    } else {
        join_strings(v, ", ")
    }
}

pub fn reference_details(r: &Reference) -> (t: String)
    ensures
        t@ == reference_details_text(*r),
{
    let mut out = String::from_str("Name: ");
    out.append(r.name.as_str());
    out.append("\nKind: ");
    out.append(r.kind.as_str());
    out.append("\nSource: ");
    let src = source_line(&r.source);
    out.append(src.as_str());
    out.append("\nDescription: ");
    match &r.description {
        Some(d) => out.append(d.as_str()),
        None => out.append("(none)"),
    }
    out.append("\nTags: ");
    let tags = list_text(&r.tags);
    out.append(tags.as_str());
    out
}

/// The details of a bundle handed to an agent.
pub open spec fn bundle_details_text(b: Bundle) -> Seq<char> {
    "Name: "@ + b.name@ + "\nDescription: "@ + (match b.description {
        Some(d) => d@,
        None => "(none)"@,
    }) + "\nTags: "@ + list_or_none(str_views(b.tags@)) + "\nReferences: "@ + joined(
        str_views(b.references@),
        ", "@,
    )
}

pub fn bundle_details(b: &Bundle) -> (t: String)
    ensures
        t@ == bundle_details_text(*b),
{
    let mut out = String::from_str("Name: ");
    out.append(b.name.as_str());
    out.append("\nDescription: ");
    match &b.description {
        Some(d) => out.append(d.as_str()),
        None => out.append("(none)"),
    }
    out.append("\nTags: ");
    let tags = list_text(&b.tags);
    out.append(tags.as_str());
    out.append("\nReferences: ");
    let refs = join_strings(&b.references, ", ");
    out.append(refs.as_str());
    out
}

} // verus!
