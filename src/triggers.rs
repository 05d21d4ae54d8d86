use vstd::prelude::*;

use crate::error::CliError;
use crate::source::{join_url, url_join_of};
use crate::text::{chars_of, push_all, string_of};

verus! {

broadcast use vstd::seq_lib::group_to_multiset_ensures;

/// A stored trigger, as every read but its creation returns it: it carries
/// no secret key.
pub struct Trigger {
    pub id: String,
    pub template_url: Option<String>,
    /// When it was last updated, in nanoseconds since the Unix epoch.
    pub updated_at: i128,
}

/// A trigger as its creation returns it: the only time its secret key is
/// handed out.
pub struct TriggerWithSecret {
    pub trigger: Trigger,
    pub secret_key: String,
}

/// Most recently updated first.
pub open spec fn newest_first(s: Seq<Trigger>) -> bool {
    forall|a: int, b: int| 0 <= a < b < s.len() ==> (#[trigger] s[a]).updated_at >= (#[trigger] s[b]).updated_at
}

/// `r` is an arrangement of `s` in which `idx` gives each element's place in
/// `s`, and elements updated at the same time keep the order they had in `s`.
pub open spec fn stable_arrangement(r: Seq<Trigger>, s: Seq<Trigger>, idx: Seq<int>) -> bool {
    &&& idx.len() == r.len()
    &&& forall|k: int| 0 <= k < r.len() ==> 0 <= #[trigger] idx[k] < s.len() && r[k] == s[idx[k]]
    &&& forall|k: int, l: int|
        0 <= k < l < r.len() && (#[trigger] r[k]).updated_at == (#[trigger] r[l]).updated_at ==> idx[k] < idx[l]
}

/// Orders triggers by descending update time; triggers updated at the same
/// time keep their order.
pub fn sort_newest_first(triggers: Vec<Trigger>) -> (r: Vec<Trigger>)
    ensures
        r@.to_multiset() == triggers@.to_multiset(),
        newest_first(r@),
        forall|i: int, j: int|
            0 <= i < r@.len() && 0 <= j < r@.len() && (#[trigger] r@[i]).updated_at > (#[trigger] r@[j]).updated_at
                ==> i < j,
        exists|idx: Seq<int>| stable_arrangement(r@, triggers@, idx),
{
    let ghost all = triggers@;
    let ghost n = all.len();
    let mut rest = triggers;
    let mut out: Vec<Trigger> = Vec::new();
    let ghost mut idx: Seq<int> = Seq::empty();
    let ghost mut taken: int = 0;
    assert(out@.to_multiset().add(rest@.to_multiset()) =~= all.to_multiset());
    assert(rest@ =~= all.subrange(0, n as int));
    while rest.len() > 0
        invariant
            out@.to_multiset().add(rest@.to_multiset()) == all.to_multiset(),
            newest_first(out@),
            n == all.len(),
            0 <= taken <= n,
            rest@ == all.subrange(taken, n as int),
            stable_arrangement(out@, all, idx),
            forall|k: int| 0 <= k < idx.len() ==> #[trigger] idx[k] < taken,
        decreases rest@.len(),
    {
        let ghost rest_before = rest@;
        let x = rest.remove(0);
        assert(rest_before.remove(0) == rest@);
        assert(x == all[taken]);
        let mut j: usize = 0;
        while j < out.len() && out[j].updated_at >= x.updated_at
            invariant
                j <= out@.len(),
                forall|k: int| 0 <= k < j ==> (#[trigger] out@[k]).updated_at >= x.updated_at,
            decreases out@.len() - j,
        {
            j = j + 1;
        }
        let ghost out_before = out@;
        let ghost idx_before = idx;
        proof {
            if j < out_before.len() {
                assert forall|k: int| j <= k < out_before.len() implies (#[trigger] out_before[k]).updated_at
                    < x.updated_at by {
                    if k > j {
                        assert(out_before[j as int].updated_at >= out_before[k].updated_at);
                    }
                }
            }
        }
        out.insert(j, x);
        proof {
            idx = idx_before.insert(j as int, taken);
        }
        assert(out@ == out_before.insert(j as int, x));
        assert forall|a: int, b: int| 0 <= a < b < out@.len() implies (#[trigger] out@[a]).updated_at
            >= (#[trigger] out@[b]).updated_at by {
            if b < j {
                assert(out@[a] == out_before[a] && out@[b] == out_before[b]);
            } else if b == j {
                assert(out@[a] == out_before[a]);
            } else if a < j {
                assert(out@[a] == out_before[a] && out@[b] == out_before[b - 1]);
            } else if a == j {
                assert(out@[b] == out_before[b - 1]);
            } else {
                assert(out@[a] == out_before[a - 1] && out@[b] == out_before[b - 1]);
            }
        }
        assert forall|k: int| 0 <= k < out@.len() implies 0 <= #[trigger] idx[k] < all.len() && out@[k] == all[idx[k]] by {
            if k < j {
                assert(idx[k] == idx_before[k] && out@[k] == out_before[k]);
            } else if k > j {
                assert(idx[k] == idx_before[k - 1] && out@[k] == out_before[k - 1]);
            }
        }
        assert forall|k: int, l: int|
            0 <= k < l < out@.len() && (#[trigger] out@[k]).updated_at == (#[trigger] out@[l]).updated_at
                implies idx[k] < idx[l] by {
            if l < j {
                assert(out@[k] == out_before[k] && out@[l] == out_before[l]);
                assert(idx[k] == idx_before[k] && idx[l] == idx_before[l]);
            } else if l == j {
                assert(idx[k] == idx_before[k]);
            } else if k < j {
                assert(out@[k] == out_before[k] && out@[l] == out_before[l - 1]);
                assert(idx[k] == idx_before[k] && idx[l] == idx_before[l - 1]);
            } else if k == j {
                assert(out@[l] == out_before[l - 1]);
            } else {
                assert(out@[k] == out_before[k - 1] && out@[l] == out_before[l - 1]);
                assert(idx[k] == idx_before[k - 1] && idx[l] == idx_before[l - 1]);
            }
        }
        assert forall|k: int| 0 <= k < idx.len() implies #[trigger] idx[k] < taken + 1 by {
            if k < j {
                assert(idx[k] == idx_before[k]);
            } else if k > j {
                assert(idx[k] == idx_before[k - 1]);
            }
        }
        proof {
            taken = taken + 1;
        }
        assert(rest@ =~= all.subrange(taken, n as int));
        assert(out@.to_multiset().add(rest@.to_multiset()) =~= all.to_multiset());
    }
    assert(rest@ =~= Seq::<Trigger>::empty());
    assert(out@.to_multiset().add(rest@.to_multiset()) =~= out@.to_multiset());
    assert forall|i: int, j: int|
        0 <= i < out@.len() && 0 <= j < out@.len() && (#[trigger] out@[i]).updated_at > (#[trigger] out@[j]).updated_at
            implies i < j by {
        if j < i {
            assert(out@[j].updated_at >= out@[i].updated_at);
        }
    }
    assert(stable_arrangement(out@, all, idx));
    out
}

/// `{base_url}/api/triggers/{id}`.
pub open spec fn trigger_url_of(base_url: Seq<char>, id: Seq<char>) -> Seq<char> {
    base_url + "/api/triggers/"@ + id
}

/// `{base_url}/api/triggers/{id}/webhook`: where a trigger is invoked.
pub open spec fn webhook_url_of(base_url: Seq<char>, id: Seq<char>) -> Seq<char> {
    trigger_url_of(base_url, id) + "/webhook"@
}

/// The URL of a trigger.
pub fn trigger_url(base_url: &str, id: &str) -> (r: String)
    ensures
        r@ == trigger_url_of(base_url@, id@),
{
    let mut out = chars_of(base_url);
    push_all(&mut out, &chars_of("/api/triggers/"));
    push_all(&mut out, &chars_of(id));
    string_of(&out)
}

/// The webhook URL of a trigger.
pub fn webhook_url(base_url: &str, id: &str) -> (r: String)
    ensures
        r@ == webhook_url_of(base_url@, id@),
{
    let mut out = chars_of(trigger_url(base_url, id).as_str());
    push_all(&mut out, &chars_of("/webhook"));
    string_of(&out)
}

/// The trigger that creation returned, with the secret key that it must
/// have returned with it; without one, `TriggerSecretUnavailable`.
pub fn with_secret(trigger: Trigger, secret_key: Option<String>) -> (r: Result<TriggerWithSecret, CliError>)
    ensures
        secret_key is None <==> r is Err,
        r is Err ==> r->Err_0 == CliError::TriggerSecretUnavailable,
        r is Ok ==> r->Ok_0.trigger == trigger && r->Ok_0.secret_key == secret_key->Some_0,
{
    match secret_key {
        Some(secret_key) => Ok(TriggerWithSecret { trigger, secret_key }),
        None => Err(CliError::TriggerSecretUnavailable),
    }
}

/// `api/triggers/{id}/{secret_key}`.
pub open spec fn secret_path(id: Seq<char>, secret_key: Seq<char>) -> Seq<char> {
    "api/triggers/"@ + id + "/"@ + secret_key
}

/// The URL that embeds a new trigger's secret key, resolved against the
/// server's URL; `InvalidUrl` where it does not resolve.
pub fn secret_trigger_url(server: &str, created: &TriggerWithSecret) -> (r: Result<String, CliError>)
    ensures
        r is Ok <==> url_join_of(server@, secret_path(created.trigger.id@, created.secret_key@)) is Some,
        r is Ok ==> r->Ok_0@ == url_join_of(server@, secret_path(created.trigger.id@, created.secret_key@))->Some_0,
        r is Err ==> r->Err_0 == CliError::InvalidUrl,
{
    let mut rel = chars_of("api/triggers/");
    push_all(&mut rel, &chars_of(created.trigger.id.as_str()));
    push_all(&mut rel, &chars_of("/"));
    push_all(&mut rel, &chars_of(created.secret_key.as_str()));
    let rel = string_of(&rel);
    match join_url(server, rel.as_str()) {
        Some(u) => Ok(u),
        None => Err(CliError::InvalidUrl),
    }
}

/// The title of the trigger made for a template: `{name} Trigger`.
pub fn trigger_title(template_name: &str) -> (r: String)
    ensures
        r@ == template_name@ + " Trigger"@,
{
    let mut out = chars_of(template_name);
    push_all(&mut out, &chars_of(" Trigger"));
    string_of(&out)
}

} // verus!

verus! {

/// The URL that `s` parses as, where it parses: its serialisation, and
/// whether it cannot be a base (a `mailto:` or `data:` URL, say).
pub uninterp spec fn parsed_url_of(s: Seq<char>) -> Option<(Seq<char>, bool)>;

/// Relies on `url::Url::parse`, `url::Url::cannot_be_a_base` and the URL's
/// serialisation.
#[verifier::external_body]
fn parse_url(s: &str) -> (r: Option<(String, bool)>)
    ensures
        r is Some <==> parsed_url_of(s@) is Some,
        r is Some ==> r->Some_0.0@ == parsed_url_of(s@)->Some_0.0 && r->Some_0.1 == parsed_url_of(s@)->Some_0.1,
{
    match url::Url::parse(s) {
        Ok(u) => {
            let cannot_be_a_base = u.cannot_be_a_base();
            Some((u.to_string(), cannot_be_a_base))
        },
        Err(_) => None,
    }
}

/// Whether `s` is a URL that can be a base, as a trigger's template URL must be.
pub open spec fn is_base_url(s: Seq<char>) -> bool {
    parsed_url_of(s) is Some && !parsed_url_of(s)->Some_0.1
}

/// Where the template of a new trigger comes from.
#[derive(Debug, PartialEq, Eq)]
pub enum TriggerSource {
    /// A template URL, which the server fetches.
    Url(String),
    /// A template file, whose body is sent.
    Path(String),
}

impl TriggerSource {
    /// A URL where `s` is one that can be a base, else a path.
    pub fn from_str(s: &str) -> (r: TriggerSource)
        ensures
            is_base_url(s@) ==> (r matches TriggerSource::Url(u) && u@ == parsed_url_of(s@)->Some_0.0),
            !is_base_url(s@) ==> (r matches TriggerSource::Path(p) && p@ == s@),
    {
        match parse_url(s) {
            Some((u, cannot_be_a_base)) => {
                if cannot_be_a_base {
                    TriggerSource::Path(string_of(&chars_of(s)))
                } else {
                    TriggerSource::Url(u)
                }
            },
            None => TriggerSource::Path(string_of(&chars_of(s))),
        }
    }
}

} // verus!
