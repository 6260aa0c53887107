//! The gateway's settings.
use vstd::prelude::*;

use crate::strmap::StrMap;
use crate::text;

verus! {

/// Where the gateway keeps its files unless told otherwise.
pub const WORK_DIR: &'static str = "/etc/brain";

/// Which hosts `web_fetch` may reach. Unless it is set, none.
pub enum EgressPolicy {
    AllowAll,
    DenyAll,
    /// These domains and their subdomains.
    Allowlist(Vec<String>),
    /// All but these domains and their subdomains.
    Denylist(Vec<String>),
}

#[verifier::ext_equal]
pub enum PolicyModel {
    AllowAll,
    DenyAll,
    Allowlist(Seq<Seq<char>>),
    Denylist(Seq<Seq<char>>),
}

impl View for EgressPolicy {
    type V = PolicyModel;

    open spec fn view(&self) -> PolicyModel {
        match *self {
            EgressPolicy::AllowAll => PolicyModel::AllowAll,
            EgressPolicy::DenyAll => PolicyModel::DenyAll,
            EgressPolicy::Allowlist(d) => PolicyModel::Allowlist(text::texts(d@)),
            EgressPolicy::Denylist(d) => PolicyModel::Denylist(text::texts(d@)),
        }
    }
}

/// What a model costs, as written: per million tokens of the prompt and of the answer.
pub struct PriceEntry {
    pub model: String,
    pub prompt_rate: String,
    pub completion_rate: String,
}

#[verifier::ext_equal]
pub struct PriceModel {
    pub model: Seq<char>,
    pub prompt_rate: Seq<char>,
    pub completion_rate: Seq<char>,
}

impl View for PriceEntry {
    type V = PriceModel;

    open spec fn view(&self) -> PriceModel {
        PriceModel {
            model: self.model@,
            prompt_rate: self.prompt_rate@,
            completion_rate: self.completion_rate@,
        }
    }
}

pub open spec fn price_models(s: Seq<PriceEntry>) -> Seq<PriceModel> {
    s.map_values(|p: PriceEntry| p@)
}

pub struct Config {
    pub psk: String,
    pub db_path: String,
    pub addr: String,
    pub downloads_dir: String,
    pub jwt_secret: String,
    /// How many seconds a worker may be silent.
    pub worker_timeout_s: u64,
    /// How many seconds a request waits for a free worker.
    pub queue_timeout_s: u64,
    /// The worker's model for a name that clients use.
    pub model_aliases: StrMap<String>,
    /// Whether the shared key is taken as a token as well.
    pub allow_psk_as_token: bool,
    pub metrics_enabled: bool,
    pub telemetry_enabled: bool,
    /// For how many seconds answers are kept for repeated requests.
    pub idempotency_ttl_s: u64,
    pub queue_wait_budget_s: u64,
    pub prefill_budget_s: u64,
    pub decode_budget_s: u64,
    pub tool_dispatch_budget_s: u64,
    /// The context window of a worker that does not report one.
    pub default_context_window: u32,
    pub model_pricing: Vec<PriceEntry>,
    /// The search engine for `web_search`. Without one no hosted tool is offered or run.
    pub searxng_url: Option<String>,
    /// How many rounds of hosted tool calls a request may take.
    pub hosted_tool_max_rounds: usize,
    pub egress_policy: EgressPolicy,
    /// How many pieces of an answer are buffered.
    pub stream_buffer_chunks: usize,
}

#[verifier::ext_equal]
pub struct ConfigModel {
    pub psk: Seq<char>,
    pub db_path: Seq<char>,
    pub addr: Seq<char>,
    pub downloads_dir: Seq<char>,
    pub jwt_secret: Seq<char>,
    pub worker_timeout_s: u64,
    pub queue_timeout_s: u64,
    pub model_aliases: Map<Seq<char>, Seq<char>>,
    pub allow_psk_as_token: bool,
    pub metrics_enabled: bool,
    pub telemetry_enabled: bool,
    pub idempotency_ttl_s: u64,
    pub queue_wait_budget_s: u64,
    pub prefill_budget_s: u64,
    pub decode_budget_s: u64,
    pub tool_dispatch_budget_s: u64,
    pub default_context_window: u32,
    pub model_pricing: Seq<PriceModel>,
    pub searxng_url: Option<Seq<char>>,
    pub hosted_tool_max_rounds: usize,
    pub egress_policy: PolicyModel,
    pub stream_buffer_chunks: usize,
}

/// What a map of strings holds.
pub open spec fn strings(m: StrMap<String>) -> Map<Seq<char>, Seq<char>> {
    m@.map_values(|s: String| s@)
}

impl View for Config {
    type V = ConfigModel;

    open spec fn view(&self) -> ConfigModel {
        ConfigModel {
            psk: self.psk@,
            db_path: self.db_path@,
            addr: self.addr@,
            downloads_dir: self.downloads_dir@,
            jwt_secret: self.jwt_secret@,
            worker_timeout_s: self.worker_timeout_s,
            queue_timeout_s: self.queue_timeout_s,
            model_aliases: strings(self.model_aliases),
            allow_psk_as_token: self.allow_psk_as_token,
            metrics_enabled: self.metrics_enabled,
            telemetry_enabled: self.telemetry_enabled,
            idempotency_ttl_s: self.idempotency_ttl_s,
            queue_wait_budget_s: self.queue_wait_budget_s,
            prefill_budget_s: self.prefill_budget_s,
            decode_budget_s: self.decode_budget_s,
            tool_dispatch_budget_s: self.tool_dispatch_budget_s,
            default_context_window: self.default_context_window,
            model_pricing: price_models(self.model_pricing@),
            searxng_url: text::opt_text(self.searxng_url),
            hosted_tool_max_rounds: self.hosted_tool_max_rounds,
            egress_policy: self.egress_policy@,
            stream_buffer_chunks: self.stream_buffer_chunks,
        }
    }
}

// ── Reading settings ────────────────────────────────────────────────────────

pub type Vars = Map<Seq<char>, Seq<char>>;

pub open spec fn var(vars: Vars, name: Seq<char>) -> Option<Seq<char>> {
    if vars.dom().contains(name) {
        Some(vars[name])
    } else {
        None
    }
}

pub open spec fn var_or(vars: Vars, name: Seq<char>, default: Seq<char>) -> Seq<char> {
    match var(vars, name) {
        Some(v) => v,
        None => default,
    }
}

/// The number that a variable writes, if it is one and at most `max`; `default` otherwise.
pub open spec fn number_or(vars: Vars, name: Seq<char>, max: nat, default: nat) -> nat {
    match var(vars, name) {
        Some(v) => match text::at_most(text::parse_unsigned(v), max) {
            Some(n) => n,
            None => default,
        },
        None => default,
    }
}

/// Whether a switch is on, which it is unless it is set to something else than `1` or `true`.
pub open spec fn switch(vars: Vars, name: Seq<char>) -> bool {
    match var(vars, name) {
        Some(v) => v == "1"@ || text::to_ascii_lower(v) == "true"@,
        None => true,
    }
}

/// An alias and its model, from `alias=model`.
pub open spec fn alias_of(pair: Seq<char>) -> Option<(Seq<char>, Seq<char>)> {
    match text::cut_at(pair, '=') {
        Some((a, m)) => if text::trim(a).len() == 0 || text::trim(m).len() == 0 {
            None
        } else {
            Some((text::trim(a), text::trim(m)))
        },
        None => None,
    }
}

/// The aliases of a list of pairs; of two for one name the later one counts.
pub open spec fn aliases_of(pairs: Seq<Seq<char>>) -> Map<Seq<char>, Seq<char>>
    decreases pairs.len(),
{
    if pairs.len() == 0 {
        Map::empty()
    } else {
        let before = aliases_of(pairs.drop_last());
        match alias_of(pairs.last()) {
            Some((a, m)) => before.insert(a, m),
            None => before,
        }
    }
}

/// The domains of a list: without blanks, in lower case, none empty.
pub open spec fn domains_of(parts: Seq<Seq<char>>) -> Seq<Seq<char>>
    decreases parts.len(),
{
    if parts.len() == 0 {
        seq![]
    } else {
        let before = domains_of(parts.drop_last());
        let d = text::lowercase(text::trim(parts.last()));
        if d.len() > 0 {
            before.push(d)
        } else {
            before
        }
    }
}

pub open spec fn policy_of(mode: Seq<char>, domains: Seq<Seq<char>>) -> PolicyModel {
    if mode == "allow_all"@ {
        PolicyModel::AllowAll
    } else if mode == "allowlist"@ {
        PolicyModel::Allowlist(domains)
    } else if mode == "denylist"@ {
        PolicyModel::Denylist(domains)
    } else {
        PolicyModel::DenyAll
    }
}

/// A price, from `model=prompt:completion`.
pub open spec fn price_of(entry: Seq<char>) -> Option<PriceModel> {
    match text::cut_at(entry, '=') {
        Some((model, rates)) => match text::cut_at(text::trim(rates), ':') {
            Some((p, c)) => if text::trim(model).len() == 0 {
                None
            } else {
                Some(
                    PriceModel {
                        model: text::trim(model),
                        prompt_rate: text::trim(p),
                        completion_rate: text::trim(c),
                    },
                )
            },
            None => None,
        },
        None => None,
    }
}

pub open spec fn prices_of(entries: Seq<Seq<char>>) -> Seq<PriceModel>
    decreases entries.len(),
{
    if entries.len() == 0 {
        seq![]
    } else {
        let before = prices_of(entries.drop_last());
        match price_of(entries.last()) {
            Some(p) => before.push(p),
            None => before,
        }
    }
}

/// The shared key: the one built in, or that of the environment.
pub open spec fn psk_of(built_in: Option<Seq<char>>, vars: Vars) -> Option<Seq<char>> {
    match built_in {
        Some(k) => Some(k),
        None => var(vars, "BRAIN_PSK"@),
    }
}

/// The settings that an environment gives, with a shared key.
pub open spec fn config_of(psk: Seq<char>, vars: Vars) -> ConfigModel {
    ConfigModel {
        psk,
        jwt_secret: var_or(vars, "BRAIN_JWT_SECRET"@, psk),
        db_path: var_or(vars, "BRAIN_DB"@, WORK_DIR@ + "/brain.db"@),
        addr: var_or(vars, "BRAIN_ADDR"@, "127.0.0.1:9999"@),
        downloads_dir: var_or(vars, "BRAIN_DOWNLOADS_DIR"@, WORK_DIR@ + "/downloads"@),
        worker_timeout_s: number_or(vars, "BRAIN_WORKER_TIMEOUT"@, u64::MAX as nat, 120) as u64,
        queue_timeout_s: number_or(vars, "BRAIN_QUEUE_TIMEOUT"@, u64::MAX as nat, 10) as u64,
        model_aliases: aliases_of(text::split(var_or(vars, "BRAIN_MODEL_ALIASES"@, seq![]), ',')),
        allow_psk_as_token: switch(vars, "BRAIN_ALLOW_PSK_TOKEN"@),
        metrics_enabled: switch(vars, "BRAIN_METRICS_ENABLED"@),
        telemetry_enabled: switch(vars, "BRAIN_TELEMETRY_ENABLED"@),
        idempotency_ttl_s: number_or(vars, "BRAIN_IDEMPOTENCY_TTL"@, u64::MAX as nat, 300) as u64,
        queue_wait_budget_s: number_or(vars, "BRAIN_QUEUE_WAIT_BUDGET"@, u64::MAX as nat, 10) as u64,
        prefill_budget_s: number_or(vars, "BRAIN_PREFILL_BUDGET"@, u64::MAX as nat, 30) as u64,
        decode_budget_s: number_or(vars, "BRAIN_DECODE_BUDGET"@, u64::MAX as nat, 60) as u64,
        tool_dispatch_budget_s: number_or(
            vars,
            "BRAIN_TOOL_DISPATCH_BUDGET"@,
            u64::MAX as nat,
            15,
        ) as u64,
        default_context_window: number_or(vars, "BRAIN_DEFAULT_CTX"@, u32::MAX as nat, 32768) as u32,
        model_pricing: prices_of(text::split(var_or(vars, "BRAIN_MODEL_PRICING"@, seq![]), ',')),
        searxng_url: match var(vars, "BRAIN_SEARXNG_URL"@) {
            Some(u) => if text::trim(u).len() > 0 {
                Some(u)
            } else {
                None
            },
            None => None,
        },
        hosted_tool_max_rounds: number_or(
            vars,
            "BRAIN_HOSTED_TOOL_MAX_ROUNDS"@,
            usize::MAX as nat,
            4,
        ) as usize,
        egress_policy: policy_of(
            var_or(vars, "BRAIN_EGRESS_MODE"@, "deny_all"@),
            domains_of(text::split(var_or(vars, "BRAIN_EGRESS_DOMAINS"@, seq![]), ',')),
        ),
        stream_buffer_chunks: {
            let n = number_or(vars, "BRAIN_STREAM_BUFFER_CHUNKS"@, usize::MAX as nat, 1024);
            if n > 0 {
                n as usize
            } else {
                1024
            }
        },
    }
}

fn get_var<'a>(vars: &'a StrMap<String>, name: &str) -> (r: Option<&'a str>)
    requires
        vars.wf(),
    ensures
        crate::json::opt_str_ref(r) == var(strings(*vars), name@),
{
    match vars.get(name) {
        Some(v) => Some(v.as_str()),
        None => None,
    }
}

fn get_or(vars: &StrMap<String>, name: &str, default: &str) -> (r: String)
    requires
        vars.wf(),
    ensures
        r@ == var_or(strings(*vars), name@, default@),
{
    match get_var(vars, name) {
        Some(v) => text::owned(v),
        None => text::owned(default),
    }
}

fn get_number(vars: &StrMap<String>, name: &str, max: u64, default: u64) -> (r: u64)
    requires
        vars.wf(),
        default <= max,
    ensures
        r == number_or(strings(*vars), name@, max as nat, default as nat),
        r <= max,
{
    match get_var(vars, name) {
        Some(v) => match text::number_of(v, max) {
            Some(n) => n,
            None => default,
        },
        None => default,
    }
}

fn get_switch(vars: &StrMap<String>, name: &str) -> (r: bool)
    requires
        vars.wf(),
    ensures
        r == switch(strings(*vars), name@),
{
    match get_var(vars, name) {
        Some(v) => text::str_eq(v, "1") || text::str_eq(text::lower_text(v).as_str(), "true"),
        None => true,
    }
}

/// The aliases that a text writes.
pub fn parse_aliases(s: &str) -> (r: StrMap<String>)
    ensures
        r.wf(),
        strings(r) == aliases_of(text::split(s@, ',')),
{
    let pairs = text::split_text(s, ',');
    let ghost all = text::texts(pairs@);
    let mut out: StrMap<String> = StrMap::new();
    let mut i: usize = 0;
    assert(strings(out) =~= aliases_of(all.take(0)));
    while i < pairs.len()
        invariant
            i <= pairs.len(),
            all == text::texts(pairs@),
            out.wf(),
            strings(out) == aliases_of(all.take(i as int)),
        decreases pairs.len() - i,
    {
        proof {
            assert(all.take(i + 1).drop_last() =~= all.take(i as int));
            assert(all.take(i + 1).last() == pairs@[i as int]@);
        }
        match text::cut_text(pairs[i].as_str(), '=') {
            Some(p) => {
                let alias = text::trimmed(p.0.as_str());
                let model = text::trimmed(p.1.as_str());
                if !alias.as_str().is_empty() && !model.as_str().is_empty() {
                    let ghost before = out;
                    let ghost m = model;
                    out.insert(alias.as_str(), model);
                    assert(strings(out) =~= strings(before).insert(alias@, m@));
                }
            },
            None => {},
        }
        i = i + 1;
    }
    assert(all.take(all.len() as int) =~= all);
    out
}

/// The domains that a text lists.
pub fn parse_domains(s: &str) -> (r: Vec<String>)
    ensures
        text::texts(r@) == domains_of(text::split(s@, ',')),
{
    let parts = text::split_text(s, ',');
    let ghost all = text::texts(parts@);
    let mut out: Vec<String> = Vec::new();
    let mut i: usize = 0;
    while i < parts.len()
        invariant
            i <= parts.len(),
            all == text::texts(parts@),
            text::texts(out@) == domains_of(all.take(i as int)),
        decreases parts.len() - i,
    {
        proof {
            assert(all.take(i + 1).drop_last() =~= all.take(i as int));
            assert(all.take(i + 1).last() == parts@[i as int]@);
        }
        let d = text::lowercase_text(text::trimmed(parts[i].as_str()).as_str());
        if !d.as_str().is_empty() {
            proof {
                text::texts_push(out@, d);
            }
            out.push(d);
        }
        i = i + 1;
    }
    assert(all.take(all.len() as int) =~= all);
    out
}

/// The policy that a mode and a list of domains make.
pub fn parse_policy(mode: &str, domains: Vec<String>) -> (r: EgressPolicy)
    ensures
        r@ == policy_of(mode@, text::texts(domains@)),
{
    if text::str_eq(mode, "allow_all") {
        EgressPolicy::AllowAll
    } else if text::str_eq(mode, "allowlist") {
        EgressPolicy::Allowlist(domains)
    } else if text::str_eq(mode, "denylist") {
        EgressPolicy::Denylist(domains)
    } else {
        EgressPolicy::DenyAll
    }
}

/// The prices that a text writes.
pub fn parse_prices(s: &str) -> (r: Vec<PriceEntry>)
    ensures
        price_models(r@) == prices_of(text::split(s@, ',')),
{
    let entries = text::split_text(s, ',');
    let ghost all = text::texts(entries@);
    let mut out: Vec<PriceEntry> = Vec::new();
    let mut i: usize = 0;
    assert(price_models(out@) =~= seq![]);
    while i < entries.len()
        invariant
            i <= entries.len(),
            all == text::texts(entries@),
            price_models(out@) == prices_of(all.take(i as int)),
        decreases entries.len() - i,
    {
        proof {
            assert(all.take(i + 1).drop_last() =~= all.take(i as int));
            assert(all.take(i + 1).last() == entries@[i as int]@);
        }
        match text::cut_text(entries[i].as_str(), '=') {
            Some(p) => {
                let model = text::trimmed(p.0.as_str());
                let rates = text::trimmed(p.1.as_str());
                match text::cut_text(rates.as_str(), ':') {
                    Some(r) => {
                        if !model.as_str().is_empty() {
                            let entry = PriceEntry {
                                model,
                                prompt_rate: text::trimmed(r.0.as_str()),
                                completion_rate: text::trimmed(r.1.as_str()),
                            };
                            let ghost before = out@;
                            out.push(entry);
                            assert(price_models(out@) =~= price_models(before).push(entry@));
                        }
                    },
                    None => {},
                }
            },
            None => {},
        }
        i = i + 1;
    }
    assert(all.take(all.len() as int) =~= all);
    out
}

impl Config {
    /// The settings that the environment `vars` gives. None where there is no shared key,
    /// neither built in nor in the environment.
    pub fn from_env(built_in_psk: &Option<String>, vars: &StrMap<String>) -> (r: Option<Config>)
        requires
            vars.wf(),
        ensures
            match psk_of(text::opt_text(*built_in_psk), strings(*vars)) {
                Some(psk) => r matches Some(c) && c@ == config_of(psk, strings(*vars))
                    && c.model_aliases.wf(),
                None => r is None,
            },
    {
        let psk = match built_in_psk {
            Some(k) => k.clone(),
            None => match get_var(vars, "BRAIN_PSK") {
                Some(k) => text::owned(k),
                None => return None,
            },
        };
        let nothing = "";
        proof {
            reveal_strlit("");
            assert(nothing@ =~= Seq::<char>::empty());
        }
        let aliases = get_or(vars, "BRAIN_MODEL_ALIASES", nothing);
        let domains = get_or(vars, "BRAIN_EGRESS_DOMAINS", nothing);
        let mode = get_or(vars, "BRAIN_EGRESS_MODE", "deny_all");
        let prices = get_or(vars, "BRAIN_MODEL_PRICING", nothing);
        let default_db = text::concat(WORK_DIR, "/brain.db");
        let default_downloads = text::concat(WORK_DIR, "/downloads");
        let searxng_url = match get_var(vars, "BRAIN_SEARXNG_URL") {
            Some(u) => if text::trimmed(u).as_str().is_empty() {
                None
            } else {
                Some(text::owned(u))
            },
            None => None,
        };
        let buffered: u64 = get_number(
            vars,
            "BRAIN_STREAM_BUFFER_CHUNKS",
            usize::MAX as u64,
            1024,
        );
        let c = Config {
            jwt_secret: get_or(vars, "BRAIN_JWT_SECRET", psk.as_str()),
            psk,
            db_path: get_or(vars, "BRAIN_DB", default_db.as_str()),
            addr: get_or(vars, "BRAIN_ADDR", "127.0.0.1:9999"),
            downloads_dir: get_or(vars, "BRAIN_DOWNLOADS_DIR", default_downloads.as_str()),
            worker_timeout_s: get_number(vars, "BRAIN_WORKER_TIMEOUT", u64::MAX, 120),
            queue_timeout_s: get_number(vars, "BRAIN_QUEUE_TIMEOUT", u64::MAX, 10),
            model_aliases: parse_aliases(aliases.as_str()),
            allow_psk_as_token: get_switch(vars, "BRAIN_ALLOW_PSK_TOKEN"),
            metrics_enabled: get_switch(vars, "BRAIN_METRICS_ENABLED"),
            telemetry_enabled: get_switch(vars, "BRAIN_TELEMETRY_ENABLED"),
            idempotency_ttl_s: get_number(vars, "BRAIN_IDEMPOTENCY_TTL", u64::MAX, 300),
            queue_wait_budget_s: get_number(vars, "BRAIN_QUEUE_WAIT_BUDGET", u64::MAX, 10),
            prefill_budget_s: get_number(vars, "BRAIN_PREFILL_BUDGET", u64::MAX, 30),
            decode_budget_s: get_number(vars, "BRAIN_DECODE_BUDGET", u64::MAX, 60),
            tool_dispatch_budget_s: get_number(vars, "BRAIN_TOOL_DISPATCH_BUDGET", u64::MAX, 15),
            default_context_window: get_number(
                vars,
                "BRAIN_DEFAULT_CTX",
                u32::MAX as u64,
                32768,
            ) as u32,
            model_pricing: parse_prices(prices.as_str()),
            searxng_url,
            hosted_tool_max_rounds: get_number(
                vars,
                "BRAIN_HOSTED_TOOL_MAX_ROUNDS",
                usize::MAX as u64,
                4,
            ) as usize,
            egress_policy: parse_policy(mode.as_str(), parse_domains(domains.as_str())),
            stream_buffer_chunks: if buffered > 0 {
                buffered as usize
            } else {
                1024
            },
        };
        Some(c)
    }

    /// The worker's model for a name that a client uses; a name without an alias stays.
    pub fn resolve_model(&self, client_model: &str) -> (r: String)
        requires
            self.model_aliases.wf(),
        ensures
            r@ == var_or(self@.model_aliases, client_model@, client_model@),
    {
        match self.model_aliases.get(client_model) {
            Some(m) => m.clone(),
            None => text::owned(client_model),
        }
    }
}

/// A stream always has room for a chunk, whatever the environment says.
pub proof fn stream_buffer_is_never_empty(psk: Seq<char>, vars: Vars)
    ensures
        config_of(psk, vars).stream_buffer_chunks > 0,
{
}

/// Unless a policy is set, nothing may be fetched.
pub proof fn egress_is_denied_by_default(psk: Seq<char>, vars: Vars)
    requires
        !vars.dom().contains("BRAIN_EGRESS_MODE"@),
    ensures
        config_of(psk, vars).egress_policy is DenyAll,
{
    reveal_strlit("deny_all");
    reveal_strlit("allow_all");
    reveal_strlit("allowlist");
    reveal_strlit("denylist");
    assert("deny_all"@.len() == 8 && "allow_all"@.len() == 9 && "allowlist"@.len() == 9);
    assert("deny_all"@[4] == '_' && "denylist"@[4] == 'l');
}

} // verus!
