//! Flows and rules. A flow is one stage of a rule, given as a node graph; a
//! rule holds up to five flows, four of which it must have.

use crate::error::{told, DomainFault};
use crate::graph::{CacheConfig, ConcurrencyConfig, HttpConfig, Meta, NodeGraph};
use crate::media_type::MediaType;
use crate::text::{lowercase, lowercased, same_text};
use vstd::prelude::*;

verus! {

/// The stage of a rule that a flow stands for.
#[derive(Debug, Clone, Copy, PartialEq, Eq, Hash, Structural)]
pub enum FlowType {
    /// Logging in.
    Login,
    /// Browsing what the site offers.
    Discovery,
    /// Searching the site.
    Search,
    /// Reading the page of one item.
    Detail,
    /// Fetching the content itself.
    Content,
}

impl FlowType {
    /// The name shown to users.
    pub open spec fn display_text(self) -> Seq<char> {
        match self {
            FlowType::Login => "登录"@,
            FlowType::Discovery => "发现"@,
            FlowType::Search => "搜索"@,
            FlowType::Detail => "详情"@,
            FlowType::Content => "内容"@,
        }
    }

    /// The identifier used in stored rules.
    pub open spec fn ident(self) -> Seq<char> {
        match self {
            FlowType::Login => "login"@,
            FlowType::Discovery => "discovery"@,
            FlowType::Search => "search"@,
            FlowType::Detail => "detail"@,
            FlowType::Content => "content"@,
        }
    }

    /// Whether a rule must have a flow of this type: all but login.
    pub open spec fn required(self) -> bool {
        !(self is Login)
    }

    /// The flow type that a lowercase word names, if it names one.
    pub open spec fn named_by(word: Seq<char>) -> Option<FlowType> {
        if word == "login"@ {
            Some(FlowType::Login)
        } else if word == "discovery"@ || word == "discover"@ {
            Some(FlowType::Discovery)
        } else if word == "search"@ {
            Some(FlowType::Search)
        } else if word == "detail"@ {
            Some(FlowType::Detail)
        } else if word == "content"@ {
            Some(FlowType::Content)
        } else {
            None
        }
    }

    /// The name shown to users.
    pub fn display_name(&self) -> (r: &'static str)
        ensures
            r@ == self.display_text(),
    {
        match self {
            FlowType::Login => "登录",
            FlowType::Discovery => "发现",
            FlowType::Search => "搜索",
            FlowType::Detail => "详情",
            FlowType::Content => "内容",
        }
    }

    /// The identifier used in stored rules.
    pub fn as_str(&self) -> (r: &'static str)
        ensures
            r@ == self.ident(),
    {
        match self {
            FlowType::Login => "login",
            FlowType::Discovery => "discovery",
            FlowType::Search => "search",
            FlowType::Detail => "detail",
            FlowType::Content => "content",
        }
    }

    /// All flow types, in the order in which a rule runs them.
    pub fn all() -> (r: &'static [FlowType])
        ensures
            r@ == seq![
                FlowType::Login,
                FlowType::Discovery,
                FlowType::Search,
                FlowType::Detail,
                FlowType::Content,
            ],
    {
        &[
            FlowType::Login,
            FlowType::Discovery,
            FlowType::Search,
            FlowType::Detail,
            FlowType::Content,
        ]
    }

    /// Whether a rule must have a flow of this type.
    pub fn is_required(&self) -> (r: bool)
        ensures
            r == self.required(),
    {
        match self {
            FlowType::Login => false,
            FlowType::Discovery => true,
            FlowType::Search => true,
            FlowType::Detail => true,
            FlowType::Content => true,
        }
    }

    /// The name shown to users, as an owned string.
    pub fn to_string(&self) -> (r: String)
        ensures
            r@ == self.display_text(),
    {
        self.display_name().to_owned()
    }

    /// Reads a flow type from a word, whatever its letter case.
    pub fn from_str(s: &str) -> (r: Result<FlowType, String>)
        ensures
            match r {
                Ok(t) => FlowType::named_by(lowercase(s@)) == Some(t),
                Err(m) => FlowType::named_by(lowercase(s@)) is None && m@ == "Unknown flow type: "@
                    + s@,
            },
    {
        let lower = lowercased(s);
        let word = lower.as_str();
        if same_text(word, "login") {
            Ok(FlowType::Login)
        } else if same_text(word, "discovery") || same_text(word, "discover") {
            Ok(FlowType::Discovery)
        } else if same_text(word, "search") {
            Ok(FlowType::Search)
        } else if same_text(word, "detail") {
            Ok(FlowType::Detail)
        } else if same_text(word, "content") {
            Ok(FlowType::Content)
        } else {
            let mut m = "Unknown flow type: ".to_owned();
            m.append(s);
            Err(m)
        }
    }
}

impl Default for FlowType {
    fn default() -> (r: FlowType)
        ensures
            r == FlowType::Login,
    {
        FlowType::Login
    }
}

impl std::str::FromStr for FlowType {
    type Err = String;

    /// Reads a flow type from a word, whatever its letter case, as the
    /// function of the same name on the type does.
    fn from_str(s: &str) -> (r: Result<FlowType, String>)
        ensures
            match r {
                Ok(t) => FlowType::named_by(lowercase(s@)) == Some(t),
                Err(m) => FlowType::named_by(lowercase(s@)) is None && m@ == "Unknown flow type: "@
                    + s@,
            },
    {
        FlowType::from_str(s)
    }
}

/// Whether a flow is in use where nothing is said.
pub fn default_enabled() -> (r: bool)
    ensures
        r,
{
    true
}

/// The settings of one flow.
#[derive(Debug, Clone)]
pub struct FlowConfig {
    /// The stage that the flow stands for.
    pub flow_type: FlowType,
    /// Whether the flow is in use.
    pub enabled: bool,
    /// What the flow does.
    pub description: Option<String>,
    /// HTTP settings that replace the rule's own for this flow.
    pub http: Option<HttpConfig>,
    /// Concurrency settings that replace the rule's own for this flow.
    pub concurrency: Option<ConcurrencyConfig>,
}

impl FlowConfig {
    /// The settings of a flow of the given type: in use, nothing else set.
    pub fn new(flow_type: FlowType) -> (c: FlowConfig)
        ensures
            c.flow_type == flow_type,
            c.enabled,
            c.description is None,
            c.http is None,
            c.concurrency is None,
    {
        FlowConfig { flow_type, enabled: true, description: None, http: None, concurrency: None }
    }

    /// The same settings with a description.
    pub fn with_description(self, desc: &str) -> (c: FlowConfig)
        ensures
            c.description matches Some(d) && d@ == desc@,
            c.flow_type == self.flow_type,
            c.enabled == self.enabled,
            c.http == self.http,
            c.concurrency == self.concurrency,
    {
        let mut c = self;
        c.description = Some(desc.to_owned());
        c
    }

    /// The same settings, in use or not.
    pub fn with_enabled(self, enabled: bool) -> (c: FlowConfig)
        ensures
            c == (FlowConfig { enabled, ..self }),
    {
        let mut c = self;
        c.enabled = enabled;
        c
    }

    /// The same settings with HTTP settings of the flow's own.
    pub fn with_http(self, http: HttpConfig) -> (c: FlowConfig)
        ensures
            c == (FlowConfig { http: Some(http), ..self }),
    {
        let mut c = self;
        c.http = Some(http);
        c
    }

    /// The same settings with concurrency settings of the flow's own.
    pub fn with_concurrency(self, concurrency: ConcurrencyConfig) -> (c: FlowConfig)
        ensures
            c == (FlowConfig { concurrency: Some(concurrency), ..self }),
    {
        let mut c = self;
        c.concurrency = Some(concurrency);
        c
    }
}

/// One flow: its settings and its graph.
#[derive(Debug, Clone)]
pub struct Flow {
    /// The flow's settings.
    pub config: FlowConfig,
    /// The flow's graph.
    pub graph: NodeGraph,
}

/// The text that reports a flow without an exit node.
pub open spec fn no_exit_report(flow_type: FlowType) -> Seq<char> {
    flow_type.display_text() + " flow must have at least one exit node"@
}

impl NodeGraph {
    /// Some node has no output port: an exit node.
    pub open spec fn has_exit(&self) -> bool {
        exists|n: int| 0 <= n < self.nodes.len() && (#[trigger] self.nodes[n]).outputs@.len() == 0
    }
}

impl Flow {
    /// Whether `answer` is a right answer of the flow's validation: success
    /// where the graph is valid and has an exit node; else the description of
    /// the graph's failure, or, for a valid graph, the report of the missing
    /// exit node.
    pub open spec fn is_verdict(&self, answer: Result<(), Seq<char>>) -> bool {
        match answer {
            Ok(()) => self.graph.is_verdict(Ok(())) && self.graph.has_exit(),
            Err(m) => {
                ||| exists|f: DomainFault|
                    #[trigger] self.graph.is_verdict(Err(f)) && f.described_by(m)
                ||| (self.graph.is_verdict(Ok(())) && !self.graph.has_exit() && m == no_exit_report(
                    self.config.flow_type,
                ))
            },
        }
    }

    /// A flow of the given type over the given graph, with fresh settings.
    pub fn new(flow_type: FlowType, graph: NodeGraph) -> (f: Flow)
        ensures
            f.graph == graph,
            f.config.flow_type == flow_type,
            f.config.enabled,
            f.config.description is None,
            f.config.http is None,
            f.config.concurrency is None,
    {
        Flow { config: FlowConfig::new(flow_type), graph }
    }

    /// A flow over the given graph with the given settings. The settings
    /// decide the flow's type; the first argument is not looked at.
    pub fn with_config(_flow_type: FlowType, graph: NodeGraph, config: FlowConfig) -> (f: Flow)
        ensures
            f == (Flow { config, graph }),
    {
        Flow { config, graph }
    }

    /// The stage that the flow stands for.
    pub fn flow_type(&self) -> (t: FlowType)
        ensures
            t == self.config.flow_type,
    {
        self.config.flow_type
    }

    /// Whether some node of the graph has no output port.
    fn has_exit_node(&self) -> (r: bool)
        ensures
            r == self.graph.has_exit(),
    {
        let mut n: usize = 0;
        while n < self.graph.nodes.len()
            invariant
                n <= self.graph.nodes.len(),
                forall|k: int| 0 <= k < n ==> (#[trigger] self.graph.nodes[k]).outputs@.len() != 0,
            decreases self.graph.nodes.len() - n,
        {
            if self.graph.nodes[n].outputs.len() == 0 {
                return true;
            }
            n += 1;
        }
        false
    }

    /// Validates the flow: its graph must be valid, and some node must be an
    /// exit node, one without output ports.
    pub fn validate(&self) -> (r: Result<(), String>)
        ensures
            self.is_verdict(told(r)),
    {
        match self.graph.validate() {
            Ok(()) => {},
            Err(e) => {
                let m = e.to_string();
                assert(self.graph.is_verdict(Err(e@)) && e@.described_by(m@));
                return Err(m);
            },
        }
        if !self.has_exit_node() {
            let mut m = self.config.flow_type.to_string();
            m.append(" flow must have at least one exit node");
            return Err(m);
        }
        Ok(())
    }
}

/// A flow whose graph has no node without outputs fails validation, however
/// sound the graph is otherwise.
pub proof fn flow_without_exit_is_rejected(flow: Flow, answer: Result<(), Seq<char>>)
    requires
        flow.is_verdict(answer),
        !flow.graph.has_exit(),
    ensures
        answer is Err,
{
}

/// A flow over an empty graph fails validation with the report of the
/// missing exit node: the empty graph is valid, and has no node at all.
pub proof fn empty_flow_is_rejected(flow: Flow, answer: Result<(), Seq<char>>)
    requires
        flow.is_verdict(answer),
        flow.graph.nodes@.len() == 0,
        flow.graph.connections@.len() == 0,
    ensures
        answer == Err::<(), Seq<char>>(no_exit_report(flow.config.flow_type)),
{
    let g = flow.graph;
    if crate::walk::has_cycle(g.edges()) {
        let c = choose|c: Seq<Seq<char>>| crate::walk::is_cycle(g.edges(), c);
        assert(g.edges().contains((c.last(), c[0])));
    }
    assert(g.is_verdict(Ok(())));
}

/// Settings shared by all flows of a rule.
#[derive(Debug, Clone)]
pub struct GlobalConfig {
    /// HTTP settings.
    pub http: Option<HttpConfig>,
    /// Cache settings.
    pub cache: Option<CacheConfig>,
    /// Concurrency settings.
    pub concurrency: Option<ConcurrencyConfig>,
}

impl Default for GlobalConfig {
    fn default() -> (c: GlobalConfig)
        ensures
            c.http is None,
            c.cache is None,
            c.concurrency is None,
    {
        GlobalConfig { http: None, cache: None, concurrency: None }
    }
}

/// The flows of a rule, one slot for each flow type.
#[derive(Debug, Clone)]
pub struct Flows {
    /// Logging in; a rule may do without it.
    pub login: Option<Flow>,
    /// Browsing what the site offers.
    pub discovery: Option<Flow>,
    /// Searching the site.
    pub search: Option<Flow>,
    /// Reading the page of one item.
    pub detail: Option<Flow>,
    /// Fetching the content itself.
    pub content: Option<Flow>,
}

impl Default for Flows {
    fn default() -> (f: Flows)
        ensures
            f.is_empty(),
    {
        Flows { login: None, discovery: None, search: None, detail: None, content: None }
    }
}

/// The text that reports a required flow that is missing.
pub open spec fn missing_flow_report(flow_type: FlowType) -> Seq<char> {
    match flow_type {
        FlowType::Login => "Login flow is required"@,
        FlowType::Discovery => "Discovery flow is required"@,
        FlowType::Search => "Search flow is required"@,
        FlowType::Detail => "Detail flow is required"@,
        FlowType::Content => "Content flow is required"@,
    }
}

/// The text that reports that the flow in a slot failed with `detail`.
pub open spec fn failed_flow_report(slot: FlowType, detail: Seq<char>) -> Seq<char> {
    slot.display_text() + " flow validation failed: "@ + detail
}

impl Flows {
    /// No slot is filled.
    pub open spec fn is_empty(&self) -> bool {
        &&& self.login is None
        &&& self.discovery is None
        &&& self.search is None
        &&& self.detail is None
        &&& self.content is None
    }

    /// The flow in the slot of the given type.
    pub open spec fn slot(&self, flow_type: FlowType) -> Option<Flow> {
        match flow_type {
            FlowType::Login => self.login,
            FlowType::Discovery => self.discovery,
            FlowType::Search => self.search,
            FlowType::Detail => self.detail,
            FlowType::Content => self.content,
        }
    }

    /// The first required flow that is missing: discovery, search, detail
    /// and content are looked at in this order; login is not required.
    pub open spec fn missing_flow(&self) -> Option<FlowType> {
        if self.discovery is None {
            Some(FlowType::Discovery)
        } else if self.search is None {
            Some(FlowType::Search)
        } else if self.detail is None {
            Some(FlowType::Detail)
        } else if self.content is None {
            Some(FlowType::Content)
        } else {
            None
        }
    }

    /// The filled slots with their types, in the order login, discovery,
    /// search, detail, content.
    pub open spec fn defined(&self) -> Seq<(FlowType, Flow)> {
        let login = match self.login {
            Some(f) => seq![(FlowType::Login, f)],
            None => seq![],
        };
        let discovery = match self.discovery {
            Some(f) => seq![(FlowType::Discovery, f)],
            None => seq![],
        };
        let search = match self.search {
            Some(f) => seq![(FlowType::Search, f)],
            None => seq![],
        };
        let detail = match self.detail {
            Some(f) => seq![(FlowType::Detail, f)],
            None => seq![],
        };
        let content = match self.content {
            Some(f) => seq![(FlowType::Content, f)],
            None => seq![],
        };
        login + discovery + search + detail + content
    }

    /// No flows at all.
    pub fn new() -> (f: Flows)
        ensures
            f.is_empty(),
    {
        Flows::default()
    }

    /// The same flows with the login slot filled.
    pub fn with_login(self, flow: Flow) -> (f: Flows)
        ensures
            f == (Flows { login: Some(flow), ..self }),
    {
        let mut f = self;
        f.login = Some(flow);
        f
    }

    /// The same flows with the discovery slot filled.
    pub fn with_discovery(self, flow: Flow) -> (f: Flows)
        ensures
            f == (Flows { discovery: Some(flow), ..self }),
    {
        let mut f = self;
        f.discovery = Some(flow);
        f
    }

    /// The same flows with the search slot filled.
    pub fn with_search(self, flow: Flow) -> (f: Flows)
        ensures
            f == (Flows { search: Some(flow), ..self }),
    {
        let mut f = self;
        f.search = Some(flow);
        f
    }

    /// The same flows with the detail slot filled.
    pub fn with_detail(self, flow: Flow) -> (f: Flows)
        ensures
            f == (Flows { detail: Some(flow), ..self }),
    {
        let mut f = self;
        f.detail = Some(flow);
        f
    }

    /// The same flows with the content slot filled.
    pub fn with_content(self, flow: Flow) -> (f: Flows)
        ensures
            f == (Flows { content: Some(flow), ..self }),
    {
        let mut f = self;
        f.content = Some(flow);
        f
    }

    /// The flow in the slot of the given type, if the slot is filled.
    pub fn get(&self, flow_type: FlowType) -> (r: Option<&Flow>)
        ensures
            match r {
                Some(f) => self.slot(flow_type) == Some(*f),
                None => self.slot(flow_type) is None,
            },
    {
        match flow_type {
            FlowType::Login => self.login.as_ref(),
            FlowType::Discovery => self.discovery.as_ref(),
            FlowType::Search => self.search.as_ref(),
            FlowType::Detail => self.detail.as_ref(),
            FlowType::Content => self.content.as_ref(),
        }
    }

    /// The flow in the slot of the given type, to be changed in place.
    pub fn get_mut(&mut self, flow_type: FlowType) -> (r: Option<&mut Flow>)
        ensures
            match r {
                Some(f) => old(self).slot(flow_type) == Some(*f) && final(self).slot(flow_type)
                    == Some(*final(f)),
                None => old(self).slot(flow_type) is None && *final(self) == *old(self),
            },
            forall|t: FlowType| t != flow_type ==> final(self).slot(t) == old(self).slot(t),
    {
        match flow_type {
            FlowType::Login => match &mut self.login {
                Some(f) => Some(f),
                None => None,
            },
            FlowType::Discovery => match &mut self.discovery {
                Some(f) => Some(f),
                None => None,
            },
            FlowType::Search => match &mut self.search {
                Some(f) => Some(f),
                None => None,
            },
            FlowType::Detail => match &mut self.detail {
                Some(f) => Some(f),
                None => None,
            },
            FlowType::Content => match &mut self.content {
                Some(f) => Some(f),
                None => None,
            },
        }
    }

    /// The filled slots with their types, in the order login, discovery,
    /// search, detail, content.
    pub fn defined_flows(&self) -> (r: Vec<(FlowType, &Flow)>)
        ensures
            r@.len() == self.defined().len(),
            forall|i: int|
                0 <= i < r@.len() ==> (#[trigger] r@[i]).0 == self.defined()[i].0 && *r@[i].1
                    == self.defined()[i].1,
    {
        let mut flows: Vec<(FlowType, &Flow)> = Vec::new();
        if let Some(flow) = &self.login {
            flows.push((FlowType::Login, flow));
        }
        if let Some(flow) = &self.discovery {
            flows.push((FlowType::Discovery, flow));
        }
        if let Some(flow) = &self.search {
            flows.push((FlowType::Search, flow));
        }
        if let Some(flow) = &self.detail {
            flows.push((FlowType::Detail, flow));
        }
        if let Some(flow) = &self.content {
            flows.push((FlowType::Content, flow));
        }
        flows
    }

    /// Checks that every required flow is there, and reports the first that
    /// is not.
    pub fn validate(&self) -> (r: Result<(), String>)
        ensures
            match r {
                Ok(()) => self.missing_flow() is None,
                Err(m) => self.missing_flow() matches Some(t) && m@ == missing_flow_report(t),
            },
    {
        if self.discovery.is_none() {
            return Err("Discovery flow is required".to_owned());
        }
        if self.search.is_none() {
            return Err("Search flow is required".to_owned());
        }
        if self.detail.is_none() {
            return Err("Detail flow is required".to_owned());
        }
        if self.content.is_none() {
            return Err("Content flow is required".to_owned());
        }
        Ok(())
    }
}

/// The flows are complete exactly when discovery, search, detail and content
/// are all there; whether login is there does not matter.
pub proof fn completeness_ignores_login(flows: Flows)
    ensures
        flows.missing_flow() is None <==> flows.discovery is Some && flows.search is Some
            && flows.detail is Some && flows.content is Some,
        flows.missing_flow() == (Flows { login: None, ..flows }).missing_flow(),
{
}

/// A complete rule: what it is for, and its flows.
#[derive(Debug, Clone)]
pub struct CrawlerRule {
    /// The kind of media that the rule extracts.
    pub media_type: MediaType,
    /// Descriptive data.
    pub meta: Meta,
    /// Settings shared by all flows.
    pub global_config: GlobalConfig,
    /// The flows.
    pub flows: Flows,
}

impl CrawlerRule {
    /// Whether `answer` is a right answer for the filled slots from position
    /// `k` on: the first flow that fails decides, and its failure is
    /// reported under the name of its slot.
    pub open spec fn flows_verdict_from(&self, k: int, answer: Result<(), Seq<char>>) -> bool
        decreases self.flows.defined().len() - k,
    {
        let defined = self.flows.defined();
        if k < 0 || k >= defined.len() {
            answer == Ok::<(), Seq<char>>(())
        } else if defined[k].1.is_verdict(Ok(())) {
            self.flows_verdict_from(k + 1, answer)
        } else {
            exists|m: Seq<char>|
                defined[k].1.is_verdict(Err(m)) && answer == Err::<(), Seq<char>>(
                    #[trigger] failed_flow_report(defined[k].0, m),
                )
        }
    }

    /// Whether `answer` is a right answer of the rule's validation: a
    /// missing required flow comes first, then the first filled slot whose
    /// flow fails.
    pub open spec fn is_verdict(&self, answer: Result<(), Seq<char>>) -> bool {
        match self.flows.missing_flow() {
            Some(t) => answer == Err::<(), Seq<char>>(missing_flow_report(t)),
            None => self.flows_verdict_from(0, answer),
        }
    }

    /// A rule for the given kind of media, with nothing else set.
    pub fn new(media_type: MediaType) -> (r: CrawlerRule)
        ensures
            r.media_type == media_type,
            r.meta.name is None,
            r.meta.description is None,
            r.meta.version is None,
            r.meta.author is None,
            r.meta.website is None,
            r.meta.icon is None,
            r.meta.tags@.len() == 0,
            r.meta.extra@.len() == 0,
            r.global_config.http is None,
            r.global_config.cache is None,
            r.global_config.concurrency is None,
            r.flows.is_empty(),
    {
        CrawlerRule {
            media_type,
            meta: Meta::default(),
            global_config: GlobalConfig::default(),
            flows: Flows::default(),
        }
    }

    /// The same rule with the given descriptive data.
    pub fn with_meta(self, meta: Meta) -> (r: CrawlerRule)
        ensures
            r == (CrawlerRule { meta, ..self }),
    {
        let mut r = self;
        r.meta = meta;
        r
    }

    /// The same rule with the given shared settings.
    pub fn with_global_config(self, config: GlobalConfig) -> (r: CrawlerRule)
        ensures
            r == (CrawlerRule { global_config: config, ..self }),
    {
        let mut r = self;
        r.global_config = config;
        r
    }

    /// The same rule with the given flows.
    pub fn with_flows(self, flows: Flows) -> (r: CrawlerRule)
        ensures
            r == (CrawlerRule { flows, ..self }),
    {
        let mut r = self;
        r.flows = flows;
        r
    }

    /// Validates the rule: the required flows must be there, and every flow
    /// that is there must be valid. The first failure is the answer.
    pub fn validate(&self) -> (r: Result<(), String>)
        ensures
            self.is_verdict(told(r)),
    {
        match self.flows.validate() {
            Ok(()) => {},
            Err(m) => {
                return Err(m);
            },
        }
        let flows = self.flows.defined_flows();
        let mut k: usize = 0;
        while k < flows.len()
            invariant
                k <= flows.len(),
                self.flows.missing_flow() is None,
                flows@.len() == self.flows.defined().len(),
                forall|i: int|
                    0 <= i < flows@.len() ==> (#[trigger] flows@[i]).0 == self.flows.defined()[i].0
                        && *flows@[i].1 == self.flows.defined()[i].1,
                forall|a: Result<(), Seq<char>>|
                    self.flows_verdict_from(k as int, a) ==> self.flows_verdict_from(0, a),
            decreases flows.len() - k,
        {
            let slot = flows[k].0;
            let flow = flows[k].1;
            match flow.validate() {
                Ok(()) => {},
                Err(detail) => {
                    let mut m = slot.to_string();
                    m.append(" flow validation failed: ");
                    m.append(detail.as_str());
                    proof {
                        assert(m@ == failed_flow_report(slot, detail@));
                        assert(self.flows.defined()[k as int].1.is_verdict(Err(detail@)));
                        assert(self.flows_verdict_from(k as int, Err(m@)));
                    }
                    return Err(m);
                },
            }
            k += 1;
        }
        Ok(())
    }

    /// The flow in the slot of the given type, if the slot is filled.
    pub fn get_flow(&self, flow_type: FlowType) -> (r: Option<&Flow>)
        ensures
            match r {
                Some(f) => self.flows.slot(flow_type) == Some(*f),
                None => self.flows.slot(flow_type) is None,
            },
    {
        self.flows.get(flow_type)
    }
}

/// A rule that has its four required flows, all of whose flows are valid,
/// passes validation.
pub proof fn complete_valid_rule_is_accepted(rule: CrawlerRule, answer: Result<(), Seq<char>>)
    requires
        rule.is_verdict(answer),
        rule.flows.discovery is Some,
        rule.flows.search is Some,
        rule.flows.detail is Some,
        rule.flows.content is Some,
        forall|k: int|
            0 <= k < rule.flows.defined().len() ==> (#[trigger] rule.flows.defined()[k]).1.is_verdict(
                Ok(()),
            ),
    ensures
        answer == Ok::<(), Seq<char>>(()),
{
    lemma_all_flows_pass(rule, 0, answer);
}

/// Where every filled slot from position `k` on holds a valid flow, the
/// answer for those slots is success.
proof fn lemma_all_flows_pass(rule: CrawlerRule, k: int, answer: Result<(), Seq<char>>)
    requires
        0 <= k <= rule.flows.defined().len(),
        rule.flows_verdict_from(k, answer),
        forall|j: int|
            0 <= j < rule.flows.defined().len() ==> (#[trigger] rule.flows.defined()[j]).1.is_verdict(
                Ok(()),
            ),
    ensures
        answer == Ok::<(), Seq<char>>(()),
    decreases rule.flows.defined().len() - k,
{
    if k < rule.flows.defined().len() {
        assert(rule.flows.defined()[k].1.is_verdict(Ok(())));
        lemma_all_flows_pass(rule, k + 1, answer);
    }
}

/// The type of a flow parameter or of a field of a flow's result.
#[derive(Debug, Clone, Copy, PartialEq, Eq, Hash, Structural)]
pub enum ParamType {
    /// Text.
    String,
    /// A number.
    Number,
    /// True or false.
    Boolean,
    /// A list of values.
    Array,
    /// A keyed record.
    Object,
}

/// A parameter that a flow takes.
#[derive(Debug, Clone)]
pub struct FlowParameter {
    /// The parameter's name.
    pub name: String,
    /// Its type.
    pub param_type: ParamType,
    /// Whether a value must be given.
    pub required: bool,
    /// The value used where none is given.
    pub default: Option<serde_json::Value>,
    /// What the parameter is for.
    pub description: Option<String>,
}

/// A field of what a flow hands back.
#[derive(Debug, Clone)]
pub struct FlowResult {
    /// The field's name.
    pub name: String,
    /// Its type.
    pub result_type: ParamType,
    /// What the field holds.
    pub description: Option<String>,
}

/// A flow to start from: a graph with its parameters and results named.
#[derive(Debug, Clone)]
pub struct FlowTemplate {
    /// The template's id.
    pub id: String,
    /// Its name.
    pub name: String,
    /// What it is for.
    pub description: Option<String>,
    /// The stage that flows made from it stand for.
    pub flow_type: FlowType,
    /// The parameters that it takes.
    pub inputs: Vec<FlowParameter>,
    /// The fields that it hands back.
    pub outputs: Vec<FlowResult>,
    /// The graph to start from.
    pub graph_template: NodeGraph,
}

} // verus!
