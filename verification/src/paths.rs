use vstd::prelude::*;
use vstd::string::StrSliceExecFns;
use vstd::string::StringExecFns;

use crate::config::{BasePathBehaviour, Config};
use crate::error::PathError;
use crate::event::{spec_stage, spec_template, IncomingEvent, RequestContext};
use crate::strutil::{find_first, lemma_find_from, lemma_lookup_str_skip, lookup_str, occurs_at,
    spec_contains, spec_ends_with, str_contains, str_ends_with, str_eq, str_find};

verus! {

/// `s` split on `/`, keeping empty segments; always at least one segment.
pub open spec fn split_slash(s: Seq<char>) -> Seq<Seq<char>>
    decreases s.len(),
{
    if s.len() == 0 {
        seq![Seq::<char>::empty()]
    } else {
        let rest = split_slash(s.drop_first());
        if s[0] == '/' {
            seq![Seq::<char>::empty()] + rest
        } else {
            seq![seq![s[0]] + rest[0]] + rest.drop_first()
        }
    }
}

/// Segments joined back with `/`.
pub open spec fn join_slash(segs: Seq<Seq<char>>) -> Seq<char>
    decreases segs.len(),
{
    if segs.len() == 0 {
        Seq::<char>::empty()
    } else if segs.len() == 1 {
        segs[0]
    } else {
        segs[0] + seq!['/'] + join_slash(segs.drop_first())
    }
}

proof fn lemma_split_slash_nonempty(s: Seq<char>)
    ensures
        split_slash(s).len() >= 1,
    decreases s.len(),
{
    if s.len() > 0 {
        lemma_split_slash_nonempty(s.drop_first());
    }
}

/// A string without `/` is a single segment.
proof fn lemma_split_no_slash(s: Seq<char>)
    requires
        forall|j: int| 0 <= j < s.len() ==> s[j] != '/',
    ensures
        split_slash(s) =~~= seq![s],
    decreases s.len(),
{
    if s.len() > 0 {
        lemma_split_no_slash(s.drop_first());
        lemma_split_slash_nonempty(s.drop_first());
        assert(seq![s[0]] + s.drop_first() =~= s);
    }
}

/// Splitting at the first `/` peels off the head segment.
proof fn lemma_split_at_first(s: Seq<char>, k: int)
    requires
        0 <= k < s.len(),
        s[k] == '/',
        forall|j: int| 0 <= j < k ==> s[j] != '/',
    ensures
        split_slash(s) =~~= seq![s.subrange(0, k)] + split_slash(
            s.subrange(k + 1, s.len() as int),
        ),
    decreases s.len(),
{
    if k == 0 {
        assert(s.subrange(0, 0) =~= Seq::<char>::empty());
        assert(s.subrange(1, s.len() as int) =~= s.drop_first());
    } else {
        let t = s.drop_first();
        lemma_split_at_first(t, k - 1);
        lemma_split_slash_nonempty(t.subrange(k, t.len() as int));
        assert(seq![s[0]] + t.subrange(0, k - 1) =~= s.subrange(0, k));
        assert(t.subrange(k, t.len() as int) =~= s.subrange(k + 1, s.len() as int));
    }
}

/// One template segment after path-parameter substitution: a segment of the
/// shape `{name}` or `{name+}` becomes the named parameter's value (failing
/// when the parameter is absent); any other segment stays as it is.
pub open spec fn subst_segment(seg: Seq<char>, params: Seq<(String, String)>) -> Result<
    Seq<char>,
    PathError,
> {
    if seg.len() > 0 && seg[0] == '{' {
        let end: int = if seg.len() >= 2 && seg[seg.len() - 1] == '}' && seg[seg.len() - 2]
            == '+' {
            2
        } else {
            1
        };
        let cut: int = if seg.len() - end >= 1 {
            seg.len() - end
        } else {
            1
        };
        match lookup_str(params, seg.subrange(1, cut)) {
            Some(v) => Ok(v@),
            None => Err(PathError::MissingPathParameter),
        }
    } else {
        Ok(seg)
    }
}

/// All segments substituted, failing on the first missing parameter.
pub open spec fn subst_segments(segs: Seq<Seq<char>>, params: Seq<(String, String)>) -> Result<
    Seq<Seq<char>>,
    PathError,
>
    decreases segs.len(),
{
    if segs.len() == 0 {
        Ok(Seq::<Seq<char>>::empty())
    } else {
        match subst_segment(segs[0], params) {
            Err(e) => Err(e),
            Ok(v) => match subst_segments(segs.drop_first(), params) {
                Err(e) => Err(e),
                Ok(rest) => Ok(seq![v] + rest),
            },
        }
    }
}

proof fn lemma_subst_segments_len(segs: Seq<Seq<char>>, params: Seq<(String, String)>)
    ensures
        subst_segments(segs, params) matches Ok(r) ==> r.len() == segs.len(),
    decreases segs.len(),
{
    if segs.len() > 0 {
        lemma_subst_segments_len(segs.drop_first(), params);
    }
}

/// The resource-path template with every `{name}` / `{name+}` segment
/// replaced by the corresponding path-parameter value.
pub open spec fn spec_populate(tpl: Seq<char>, params: Seq<(String, String)>) -> Result<
    Seq<char>,
    PathError,
> {
    match subst_segments(split_slash(tpl), params) {
        Ok(segs) => Ok(join_slash(segs)),
        Err(e) => Err(e),
    }
}

/// A request is default-domain when its host header ends with the provider's
/// default API endpoint suffix and contains the API-identifier infix;
/// load-balancer requests are never default-domain.
pub open spec fn spec_is_default_domain(ev: IncomingEvent) -> bool {
    &&& !(ev.context is Alb)
    &&& match ev.host {
        Some(h) => spec_ends_with(h@, ".amazonaws.com"@) && spec_contains(h@, ".execute-api."@),
        None => false,
    }
}

/// The path prefix contributed by the deployment: empty for load balancers,
/// `/` plus the stage for the default domain, and for a custom domain
/// everything before the first occurrence of the populated resource template
/// in the raw path.
pub open spec fn spec_base_path(ev: IncomingEvent) -> Result<Seq<char>, PathError> {
    if ev.context is Alb {
        Ok(Seq::<char>::empty())
    } else if spec_is_default_domain(ev) {
        Ok(seq!['/'] + spec_stage(ev.context))
    } else {
        match spec_populate(spec_template(ev.context), ev.path_parameters@) {
            Err(e) => Err(e),
            Ok(t) => match find_first(ev.path@, t) {
                None => Err(PathError::UnmatchedResourceTemplate),
                Some(k) => Ok(ev.path@.subrange(0, k)),
            },
        }
    }
}

/// The path used to drive dispatch: the raw path, prefixed by the base path
/// for default-domain requests.
pub open spec fn spec_full_path(ev: IncomingEvent) -> Seq<char> {
    if ev.context is Alb || !spec_is_default_domain(ev) {
        ev.path@
    } else {
        seq!['/'] + spec_stage(ev.context) + ev.path@
    }
}

/// The raw path with the base path stripped.
pub open spec fn spec_api_path(ev: IncomingEvent) -> Result<Seq<char>, PathError> {
    if ev.context is Alb || spec_is_default_domain(ev) {
        Ok(ev.path@)
    } else {
        match spec_base_path(ev) {
            Err(e) => Err(e),
            Ok(b) => Ok(ev.path@.subrange(b.len() as int, ev.path@.len() as int)),
        }
    }
}

/// The path selected for the dispatch URI: the full path under `Include` and
/// `RemountAndInclude`, the api path under `Exclude`.
pub open spec fn spec_selected_path(config: Config, ev: IncomingEvent) -> Result<
    Seq<char>,
    PathError,
> {
    if config.base_path_behaviour is Exclude {
        spec_api_path(ev)
    } else {
        Ok(spec_full_path(ev))
    }
}

/// Substitutes path parameters into one resource-template segment.
fn subst_segment_exec(seg: &str, params: &Vec<(String, String)>) -> (r: Result<String, PathError>)
    ensures
        match r {
            Ok(s) => subst_segment(seg@, params@) matches Ok(v) && s@ == v,
            Err(e) => subst_segment(seg@, params@) matches Err(e2) && e == e2,
        },
{
    let n = seg.unicode_len();
    if n > 0 && seg.get_char(0) == '{' {
        let end: usize = if n >= 2 && seg.get_char(n - 1) == '}' && seg.get_char(n - 2) == '+' {
            2
        } else {
            1
        };
        let cut: usize = if n >= end + 1 {
            n - end
        } else {
            1
        };
        let name = seg.substring_char(1, cut);
        let mut i: usize = 0;
        while i < params.len()
            invariant
                i <= params@.len(),
                subst_segment(seg@, params@) == (match lookup_str(params@, name@) {
                    Some(v) => Ok::<Seq<char>, PathError>(v@),
                    None => Err::<Seq<char>, PathError>(PathError::MissingPathParameter),
                }),
                forall|j: int| 0 <= j < i ==> params@[j].0@ != name@,
            decreases params@.len() - i,
        {
            if str_eq(params[i].0.as_str(), name) {
                proof {
                    lemma_lookup_str_skip(params@, name@, i as int);
                    assert(params@.skip(i as int)[0] == params@[i as int]);
                    assert(lookup_str(params@, name@) == Some(params@[i as int].1));
                }
                return Ok(params[i].1.clone());
            }
            i += 1;
        }
        proof {
            lemma_lookup_str_skip(params@, name@, params@.len() as int);
            assert(params@.skip(params@.len() as int) =~= Seq::<(String, String)>::empty());
        }
        Err(PathError::MissingPathParameter)
    } else {
        Ok(seg.to_owned())
    }
}

/// Replaces each `{name}` or `{name+}` segment of the resource template with
/// the corresponding path-parameter value.
pub fn populate_resource_path(tpl: &str, params: &Vec<(String, String)>) -> (r: Result<
    String,
    PathError,
>)
    ensures
        match r {
            Ok(s) => spec_populate(tpl@, params@) matches Ok(v) && s@ == v,
            Err(e) => spec_populate(tpl@, params@) matches Err(e2) && e == e2,
        },
    decreases tpl@.len(),
{
    proof {
        reveal_strlit("/");
        assert("/"@ =~= seq!['/']);
        lemma_find_from(tpl@, "/"@, 0);
    }
    match str_find(tpl, "/") {
        None => {
            proof {
                assert forall|j: int| 0 <= j < tpl@.len() implies tpl@[j] != '/' by {
                    if tpl@[j] == '/' {
                        assert(tpl@.subrange(j, j + 1) =~= "/"@);
                        assert(occurs_at(tpl@, "/"@, j));
                    }
                }
                lemma_split_no_slash(tpl@);
                assert(split_slash(tpl@)[0] == tpl@);
                assert(split_slash(tpl@).drop_first() =~= Seq::<Seq<char>>::empty());
            }
            match subst_segment_exec(tpl, params) {
                Ok(s) => {
                    proof {
                        assert(subst_segments(Seq::<Seq<char>>::empty(), params@) == Ok::<
                            _,
                            PathError,
                        >(Seq::<Seq<char>>::empty()));
                        let segs = subst_segments(split_slash(tpl@), params@)->Ok_0;
                        assert(segs =~= seq![s@]);
                    }
                    Ok(s)
                },
                Err(e) => Err(e),
            }
        },
        Some(k) => {
            proof {
                assert(occurs_at(tpl@, "/"@, k as int));
                assert(tpl@.subrange(k as int, k + 1)[0] == tpl@[k as int]);
                assert forall|j: int| 0 <= j < k implies tpl@[j] != '/' by {
                    if tpl@[j] == '/' {
                        assert(tpl@.subrange(j, j + 1) =~= "/"@);
                        assert(occurs_at(tpl@, "/"@, j));
                    }
                }
                lemma_split_at_first(tpl@, k as int);
            }
            let n = tpl.unicode_len();
            let head = tpl.substring_char(0, k);
            let tail = tpl.substring_char(k + 1, n);
            proof {
                assert(split_slash(tpl@)[0] == head@);
                assert(split_slash(tpl@).drop_first() =~= split_slash(tail@));
                lemma_split_slash_nonempty(tail@);
                lemma_subst_segments_len(split_slash(tail@), params@);
            }
            match subst_segment_exec(head, params) {
                Err(e) => Err(e),
                Ok(mut s) => match populate_resource_path(tail, params) {
                    Err(e) => Err(e),
                    Ok(rest) => {
                        proof {
                            let v = subst_segment(head@, params@)->Ok_0;
                            let rest_segs = subst_segments(split_slash(tail@), params@)->Ok_0;
                            let segs = subst_segments(split_slash(tpl@), params@)->Ok_0;
                            assert(segs =~= seq![v] + rest_segs);
                            assert(segs.drop_first() =~= rest_segs);
                            assert(join_slash(segs) == v + seq!['/'] + join_slash(rest_segs));
                        }
                        s.append("/");
                        s.append(rest.as_str());
                        Ok(s)
                    },
                },
            }
        },
    }
}

/// Whether the event's host header marks it as a default-domain request.
pub fn is_default_api_gateway_url(ev: &IncomingEvent) -> (r: bool)
    ensures
        r == spec_is_default_domain(*ev),
{
    if matches!(ev.context, RequestContext::Alb) {
        return false;
    }
    match &ev.host {
        Some(h) => str_ends_with(h.as_str(), ".amazonaws.com") && str_contains(
            h.as_str(),
            ".execute-api.",
        ),
        None => false,
    }
}

/// Appends the context's stage label, if any.
fn push_stage(p: &mut String, ctx: &RequestContext)
    ensures
        final(p)@ == old(p)@ + spec_stage(*ctx),
{
    match ctx {
        RequestContext::ApiGatewayV1 { stage: Some(s), .. } => p.append(s.as_str()),
        RequestContext::ApiGatewayV2 { stage: Some(s), .. } => p.append(s.as_str()),
        _ => {
            proof {
                assert(old(p)@ + spec_stage(*ctx) =~= old(p)@);
            }
        },
    }
}

/// The context's resource-path template, empty when absent.
fn template_string(ctx: &RequestContext) -> (r: String)
    ensures
        r@ == spec_template(*ctx),
{
    match ctx {
        RequestContext::ApiGatewayV1 { resource_path: Some(s), .. } => s.clone(),
        RequestContext::ApiGatewayV2 { path: Some(s), .. } => s.clone(),
        _ => String::new(),
    }
}

impl IncomingEvent {
    /// The string used to drive dispatch: the raw path, prefixed by
    /// `/` and the stage for default-domain requests.
    pub fn full_path(&self) -> (r: String)
        ensures
            r@ == spec_full_path(*self),
    {
        if matches!(self.context, RequestContext::Alb) || !is_default_api_gateway_url(self) {
            self.path.clone()
        } else {
            let mut p = String::from_str("/");
            proof {
                reveal_strlit("/");
                assert("/"@ =~= seq!['/']);
            }
            push_stage(&mut p, &self.context);
            p.append(self.path.as_str());
            p
        }
    }

    /// The path prefix contributed by the deployment or custom-domain
    /// mapping; fails when the populated resource template cannot be found
    /// in the raw path or references a missing path parameter.
    pub fn base_path(&self) -> (r: Result<String, PathError>)
        ensures
            match r {
                Ok(s) => spec_base_path(*self) matches Ok(v) && s@ == v,
                Err(e) => spec_base_path(*self) matches Err(e2) && e == e2,
            },
    {
        if matches!(self.context, RequestContext::Alb) {
            return Ok(String::new());
        }
        if is_default_api_gateway_url(self) {
            let mut p = String::from_str("/");
            proof {
                reveal_strlit("/");
                assert("/"@ =~= seq!['/']);
            }
            push_stage(&mut p, &self.context);
            return Ok(p);
        }
        let tpl = template_string(&self.context);
        match populate_resource_path(tpl.as_str(), &self.path_parameters) {
            Err(e) => Err(e),
            Ok(t) => {
                proof {
                    lemma_find_from(self.path@, t@, 0);
                }
                match str_find(self.path.as_str(), t.as_str()) {
                    None => Err(PathError::UnmatchedResourceTemplate),
                    Some(k) => Ok(String::from_str(self.path.as_str().substring_char(0, k))),
                }
            },
        }
    }

    /// The raw path with the base path stripped; the raw path itself for
    /// load-balancer and default-domain requests.
    pub fn api_path(&self) -> (r: Result<String, PathError>)
        ensures
            match r {
                Ok(s) => spec_api_path(*self) matches Ok(v) && s@ == v,
                Err(e) => spec_api_path(*self) matches Err(e2) && e == e2,
            },
    {
        if matches!(self.context, RequestContext::Alb) || is_default_api_gateway_url(self) {
            return Ok(self.path.clone());
        }
        match self.base_path() {
            Err(e) => Err(e),
            Ok(b) => {
                proof {
                    let t = spec_populate(spec_template(self.context), self.path_parameters@)
                        ->Ok_0;
                    lemma_find_from(self.path@, t, 0);
                }
                let bl = b.unicode_len();
                let pl = self.path.unicode_len();
                Ok(String::from_str(self.path.as_str().substring_char(bl, pl)))
            },
        }
    }

    /// The dispatch path selected by the configured base-path behaviour.
    pub fn selected_path(&self, config: &Config) -> (r: Result<String, PathError>)
        ensures
            match r {
                Ok(s) => spec_selected_path(*config, *self) matches Ok(v) && s@ == v,
                Err(e) => spec_selected_path(*config, *self) matches Err(e2) && e == e2,
            },
    {
        if matches!(config.base_path_behaviour, BasePathBehaviour::Exclude) {
            self.api_path()
        } else {
            Ok(self.full_path())
        }
    }
}

} // verus!
