//! Subdomain-based routing support for dev servers: turning branch names
//! into subdomains and reading a subdomain back out of a routed URL.

use vstd::prelude::*;
use vstd::string::StrSliceExecFns;

use crate::text::{
    alphanumeric, char_is_alphanumeric, chars_of, lower_of, lowercase, str_has_prefix,
    string_from_char_range,
};

verus! {

/// Routing configuration for one project.
#[derive(Debug, Clone)]
pub struct DevCtl2Config {
    pub project_name: String,
    pub base_domain: String,
    pub features: DevCtl2Features,
}

#[derive(Debug, Clone)]
pub struct DevCtl2Features {
    pub caddy: bool,
}

impl Default for DevCtl2Features {
    fn default() -> (r: Self)
        ensures
            r.caddy == false,
    {
        DevCtl2Features { caddy: false }
    }
}

/// What one character of a lowercased branch name contributes to the
/// subdomain: `/` and `_` become `-`, other characters stay if they are
/// alphanumeric or `-`, and everything else is dropped.
pub open spec fn scrub_unit(c: char) -> Seq<char> {
    let m = if c == '/' || c == '_' {
        '-'
    } else {
        c
    };
    if alphanumeric(m) || m == '-' {
        seq![m]
    } else {
        Seq::empty()
    }
}

/// The branch name after the per-character mapping and filtering.
pub open spec fn scrubbed(s: Seq<char>) -> Seq<char>
    decreases s.len(),
{
    if s.len() == 0 {
        Seq::empty()
    } else {
        scrubbed(s.drop_last()) + scrub_unit(s.last())
    }
}

/// The sequence without its leading dashes.
pub open spec fn trim_leading_dashes(s: Seq<char>) -> Seq<char>
    decreases s.len(),
{
    if s.len() > 0 && s[0] == '-' {
        trim_leading_dashes(s.drop_first())
    } else {
        s
    }
}

/// The sequence without its trailing dashes.
pub open spec fn trim_trailing_dashes(s: Seq<char>) -> Seq<char>
    decreases s.len(),
{
    if s.len() > 0 && s.last() == '-' {
        trim_trailing_dashes(s.drop_last())
    } else {
        s
    }
}

/// The subdomain derived from a branch name: lowercased, `/` and `_`
/// mapped to `-`, non-alphanumeric characters other than `-` dropped, and
/// dashes trimmed from both ends.
pub open spec fn sanitized_branch(s: Seq<char>) -> Seq<char> {
    trim_trailing_dashes(trim_leading_dashes(scrubbed(lower_of(s))))
}

/// Turns a branch name into a name usable as a subdomain.
pub fn sanitize_branch_for_subdomain(branch: &str) -> (r: String)
    ensures
        r@ == sanitized_branch(branch@),
{
    let lowered = lowercase(branch);
    let ghost low: Seq<char> = lowered@;
    let len = lowered.as_str().unicode_len();
    let mut kept: Vec<char> = Vec::new();
    let mut i: usize = 0;
    while i < len
        invariant
            len == low.len(),
            lowered@ == low,
            i <= len,
            kept@ == scrubbed(low.subrange(0, i as int)),
        decreases len - i,
    {
        let c = lowered.as_str().get_char(i);
        let m: char = if c == '/' || c == '_' {
            '-'
        } else {
            c
        };
        if char_is_alphanumeric(m) || m == '-' {
            kept.push(m);
        }
        proof {
            let pre = low.subrange(0, i as int);
            let cur = low.subrange(0, i + 1 as int);
            assert(cur.drop_last() =~= pre);
            assert(cur.last() == low[i as int]);
            assert(kept@ =~= scrubbed(pre) + scrub_unit(low[i as int]));
        }
        i += 1;
    }
    proof {
        assert(low.subrange(0, len as int) =~= low);
    }
    let ghost scr: Seq<char> = kept@;
    proof {
        assert(scr.subrange(0, scr.len() as int) =~= scr);
    }
    let mut start: usize = 0;
    while start < kept.len() && kept[start] == '-'
        invariant
            kept@ == scr,
            start <= scr.len(),
            trim_leading_dashes(scr.subrange(start as int, scr.len() as int))
                == trim_leading_dashes(scr),
        decreases kept.len() - start,
    {
        proof {
            let rest = scr.subrange(start as int, scr.len() as int);
            assert(rest[0] == scr[start as int]);
            assert(rest.drop_first() =~= scr.subrange(start + 1 as int, scr.len() as int));
        }
        start += 1;
    }
    proof {
        let rest = scr.subrange(start as int, scr.len() as int);
        if rest.len() > 0 {
            assert(rest[0] == scr[start as int]);
        }
        assert(trim_leading_dashes(rest) == rest);
    }
    let mut end: usize = kept.len();
    while end > start && kept[end - 1] == '-'
        invariant
            kept@ == scr,
            start <= end <= scr.len(),
            trim_leading_dashes(scr.subrange(start as int, scr.len() as int))
                == trim_leading_dashes(scr),
            trim_leading_dashes(scr) == scr.subrange(start as int, scr.len() as int),
            trim_trailing_dashes(scr.subrange(start as int, end as int))
                == trim_trailing_dashes(trim_leading_dashes(scr)),
        decreases end,
    {
        proof {
            let cur = scr.subrange(start as int, end as int);
            assert(cur.last() == scr[end - 1]);
            assert(cur.drop_last() =~= scr.subrange(start as int, end - 1));
        }
        end -= 1;
    }
    proof {
        let cur = scr.subrange(start as int, end as int);
        if cur.len() > 0 {
            assert(cur.last() == scr[end - 1]);
        }
        assert(trim_trailing_dashes(cur) == cur);
    }
    string_from_char_range(&kept, start, end)
}

/// The host characters before the first dot.
pub open spec fn up_to_dot(s: Seq<char>) -> Seq<char>
    decreases s.len(),
{
    if s.len() == 0 {
        Seq::empty()
    } else if s[0] == '.' {
        Seq::empty()
    } else {
        seq![s[0]] + up_to_dot(s.drop_first())
    }
}

/// Whether a URL starts with a scheme this crate recognises.
pub open spec fn has_scheme(s: Seq<char>) -> bool {
    "https://"@.is_prefix_of(s) || "http://"@.is_prefix_of(s)
}

/// The remainder of the URL after its scheme.
pub open spec fn after_scheme(s: Seq<char>) -> Seq<char> {
    if "https://"@.is_prefix_of(s) {
        s.skip("https://"@.len() as int)
    } else {
        s.skip("http://"@.len() as int)
    }
}

/// Reads the subdomain out of a routed URL such as
/// `https://feature-auth.myapp.localhost`: the host label before the
/// first dot, or nothing when the URL carries no recognised scheme.
pub fn extract_subdomain_from_url(url: &str) -> (r: Option<String>)
    ensures
        r is Some <==> has_scheme(url@),
        r matches Some(sub) ==> sub@ == up_to_dot(after_scheme(url@)),
{
    let offset: usize = if str_has_prefix(url, "https://") {
        proof {
            reveal_strlit("https://");
        }
        8
    } else if str_has_prefix(url, "http://") {
        proof {
            reveal_strlit("https://");
            reveal_strlit("http://");
        }
        7
    } else {
        return None;
    };
    let ghost rest: Seq<char> = after_scheme(url@);
    proof {
        assert(rest =~= url@.skip(offset as int));
    }
    let len = url.unicode_len();
    let v = chars_of(url);
    let mut end: usize = offset;
    while end < len && v[end] != '.'
        invariant
            v@ == url@,
            len == url@.len(),
            offset <= end <= len,
            rest == url@.skip(offset as int),
            up_to_dot(rest) == url@.subrange(offset as int, end as int) + up_to_dot(
                url@.skip(end as int),
            ),
        decreases len - end,
    {
        proof {
            let tail = url@.skip(end as int);
            assert(tail[0] == url@[end as int]);
            assert(tail.drop_first() =~= url@.skip(end + 1));
            assert(url@.subrange(offset as int, end as int) + seq![url@[end as int]]
                =~= url@.subrange(offset as int, end + 1));
            assert(url@.subrange(offset as int, end as int) + (seq![tail[0]] + up_to_dot(
                tail.drop_first())) =~= url@.subrange(offset as int, end + 1) + up_to_dot(
                url@.skip(end + 1)));
        }
        end += 1;
    }
    proof {
        let tail = url@.skip(end as int);
        if end < len {
            assert(tail[0] == url@[end as int]);
        }
        assert(up_to_dot(tail) =~= Seq::empty());
        assert(up_to_dot(rest) =~= url@.subrange(offset as int, end as int));
    }
    Some(string_from_char_range(&v, offset, end))
}

} // verus!
