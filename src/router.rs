use vstd::prelude::*;
use vstd::string::*;

verus! {

/// What a request is routed to.
#[derive(Clone, Copy, Debug, PartialEq, Eq, Structural)]
pub enum Route {
    Status,
    Favicon,
    CountdownIndex,
    CountdownDates,
    GitRedirect,
    IpEcho,
    NotFound,
}

/// The logical sites served behind the one listener.
#[derive(Clone, Copy, Debug, PartialEq, Eq, Structural)]
pub enum Site {
    Countdown,
    Git,
    Ip,
}

/// A site with the public host names bound to it.
pub struct HostRule {
    pub site: Site,
    pub hosts: Vec<String>,
}

/// Host rules tried in order; the loopback aliases reach every site.
pub struct Router {
    pub loopback: Vec<String>,
    pub rules: Vec<HostRule>,
}

pub open spec fn in_hosts(hosts: Seq<String>, host: Seq<char>) -> bool {
    exists|i: int| 0 <= i < hosts.len() && (#[trigger] hosts[i])@ == host
}

pub open spec fn host_view(host: Option<&str>) -> Option<Seq<char>> {
    match host {
        Some(h) => Some(h@),
        None => None,
    }
}

/// Routes chosen by path alone, whatever the host.
pub open spec fn global_route(path: Seq<char>) -> Option<Route> {
    if path == "/status"@ {
        Some(Route::Status)
    } else if path == "/favicon.ico"@ {
        Some(Route::Favicon)
    } else {
        None
    }
}

/// The route a site gives to a path, if it serves that path.
pub open spec fn site_route(site: Site, path: Seq<char>) -> Option<Route> {
    match site {
        Site::Countdown => if path == "/"@ {
            Some(Route::CountdownIndex)
        } else if path == "/dates/end"@ {
            Some(Route::CountdownDates)
        } else {
            None
        },
        Site::Git => Some(Route::GitRedirect),
        Site::Ip => Some(Route::IpEcho),
    }
}

impl Router {
    /// Rule `i` accepts the host: it is a loopback alias or one of the rule's hosts.
    pub open spec fn host_accepted(&self, i: int, host: Option<Seq<char>>) -> bool {
        match host {
            Some(h) => in_hosts(self.loopback@, h) || in_hosts(self.rules@[i].hosts@, h),
            None => false,
        }
    }

    /// The first rule from `i` on that accepts the host and serves the path.
    pub open spec fn first_match(&self, i: int, host: Option<Seq<char>>, path: Seq<char>) -> Route
        decreases self.rules@.len() - i,
    {
        if i < 0 || i >= self.rules@.len() {
            Route::NotFound
        } else if self.host_accepted(i, host) && site_route(self.rules@[i].site, path) is Some {
            site_route(self.rules@[i].site, path)->Some_0
        } else {
            self.first_match(i + 1, host, path)
        }
    }

    /// Global routes first, then the host rules in order, else `NotFound`.
    pub open spec fn spec_route(&self, host: Option<Seq<char>>, path: Seq<char>) -> Route {
        match global_route(path) {
            Some(r) => r,
            None => self.first_match(0, host, path),
        }
    }

    /// The router of the service: the countdown site, then the git site, then the IP
    /// site, each bound to its own hosts and to every loopback alias.
    pub fn new(
        loopback: Vec<String>,
        countdown_hosts: Vec<String>,
        git_hosts: Vec<String>,
        ip_hosts: Vec<String>,
    ) -> (r: Router)
        ensures
            r.loopback@ == loopback@,
            r.rules@.len() == 3,
            r.rules@[0].site == Site::Countdown,
            r.rules@[0].hosts@ == countdown_hosts@,
            r.rules@[1].site == Site::Git,
            r.rules@[1].hosts@ == git_hosts@,
            r.rules@[2].site == Site::Ip,
            r.rules@[2].hosts@ == ip_hosts@,
    {
        let mut rules: Vec<HostRule> = Vec::new();
        rules.push(HostRule { site: Site::Countdown, hosts: countdown_hosts });
        rules.push(HostRule { site: Site::Git, hosts: git_hosts });
        rules.push(HostRule { site: Site::Ip, hosts: ip_hosts });
        Router { loopback, rules }
    }

    /// Selects the route of a request from its host (if it gave one) and its path.
    pub fn route(&self, host: Option<&str>, path: &str) -> (r: Route)
        ensures
            r == self.spec_route(host_view(host), path@),
    {
        let global = route_by_path(path);
        if let Some(r) = global {
            return r;
        }
        let mut i: usize = 0;
        while i < self.rules.len()
            invariant
                i <= self.rules@.len(),
                global_route(path@) is None,
                self.first_match(0, host_view(host), path@) == self.first_match(
                    i as int,
                    host_view(host),
                    path@,
                ),
            decreases self.rules@.len() - i,
        {
            let rule = &self.rules[i];
            if self.accepts_host(i, host) {
                let target = route_for_site(rule.site, path);
                if let Some(r) = target {
                    return r;
                }
            }
            i = i + 1;
        }
        Route::NotFound
    }

    fn accepts_host(&self, i: usize, host: Option<&str>) -> (r: bool)
        requires
            i < self.rules@.len(),
        ensures
            r == self.host_accepted(i as int, host_view(host)),
    {
        match host {
            Some(h) => contains_host(&self.loopback, h) || contains_host(&self.rules[i].hosts, h),
            None => false,
        }
    }
}

fn same_text(a: &str, b: &str) -> (r: bool)
    ensures
        r == (a@ == b@),
{
    let x = a.to_owned();
    let y = b.to_owned();
    x == y
}

fn contains_host(hosts: &Vec<String>, host: &str) -> (r: bool)
    ensures
        r == in_hosts(hosts@, host@),
{
    let mut i: usize = 0;
    while i < hosts.len()
        invariant
            i <= hosts@.len(),
            forall|k: int| 0 <= k < i ==> (#[trigger] hosts@[k])@ != host@,
        decreases hosts@.len() - i,
    {
        if same_text(hosts[i].as_str(), host) {
            return true;
        }
        i = i + 1;
    }
    false
}

fn route_by_path(path: &str) -> (r: Option<Route>)
    ensures
        r == global_route(path@),
{
    if same_text(path, "/status") {
        Some(Route::Status)
    } else if same_text(path, "/favicon.ico") {
        Some(Route::Favicon)
    } else {
        None
    }
}

fn route_for_site(site: Site, path: &str) -> (r: Option<Route>)
    ensures
        r == site_route(site, path@),
{
    match site {
        Site::Countdown => if same_text(path, "/") {
            Some(Route::CountdownIndex)
        } else if same_text(path, "/dates/end") {
            Some(Route::CountdownDates)
        } else {
            None
        },
        Site::Git => Some(Route::GitRedirect),
        Site::Ip => Some(Route::IpEcho),
    }
}

proof fn lemma_first_match_reaches(r: Router, k: int, i: int, host: Option<Seq<char>>, path: Seq<char>)
    requires
        0 <= k <= i < r.rules@.len(),
        r.host_accepted(i, host),
        site_route(r.rules@[i].site, path) is Some,
        forall|j: int| k <= j < i ==> site_route((#[trigger] r.rules@[j]).site, path) is None,
    ensures
        r.first_match(k, host, path) == site_route(r.rules@[i].site, path)->Some_0,
    decreases i - k,
{
    if k < i {
        assert(site_route(r.rules@[k].site, path) is None);
        lemma_first_match_reaches(r, k + 1, i, host, path);
    }
}

proof fn lemma_first_match_none(r: Router, k: int, host: Option<Seq<char>>, path: Seq<char>)
    requires
        0 <= k,
        forall|j: int| 0 <= j < r.rules@.len() ==> !r.host_accepted(j, host),
    ensures
        r.first_match(k, host, path) == Route::NotFound,
    decreases r.rules@.len() - k,
{
    if k < r.rules@.len() {
        lemma_first_match_none(r, k + 1, host, path);
    }
}

/// A loopback alias is accepted by every site's host rule; so a request from a loopback
/// alias for a path that site `i` serves, that no global route takes and that no earlier
/// site serves, is routed to site `i`.
pub proof fn lemma_loopback_reaches_every_site(r: Router, i: int, host: Seq<char>, path: Seq<char>)
    requires
        0 <= i < r.rules@.len(),
        in_hosts(r.loopback@, host),
    ensures
        r.host_accepted(i, Some(host)),
        global_route(path) is None && site_route(r.rules@[i].site, path) is Some && (forall|j: int|
            0 <= j < i ==> site_route((#[trigger] r.rules@[j]).site, path) is None) ==> r.spec_route(
            Some(host),
            path,
        ) == site_route(r.rules@[i].site, path)->Some_0,
{
    if global_route(path) is None && site_route(r.rules@[i].site, path) is Some && (forall|j: int|
        0 <= j < i ==> site_route((#[trigger] r.rules@[j]).site, path) is None) {
        lemma_first_match_reaches(r, 0, i, Some(host), path);
    }
}

/// A request whose host no rule accepts (or that gives no host), for a path that no
/// global route takes, is routed to `NotFound`.
pub proof fn lemma_unmatched_request_not_found(r: Router, host: Option<Seq<char>>, path: Seq<char>)
    requires
        global_route(path) is None,
        match host {
            Some(h) => !in_hosts(r.loopback@, h) && forall|j: int|
                0 <= j < r.rules@.len() ==> !in_hosts((#[trigger] r.rules@[j]).hosts@, h),
            None => true,
        },
    ensures
        r.spec_route(host, path) == Route::NotFound,
{
    assert forall|j: int| 0 <= j < r.rules@.len() implies !r.host_accepted(j, host) by {
        match host {
            Some(h) => {
                assert(!in_hosts(r.rules@[j].hosts@, h));
            },
            None => {},
        }
    }
    lemma_first_match_none(r, 0, host, path);
}

/// The path without its leading `/`, if it has one.
pub open spec fn path_tail(path: Seq<char>) -> Seq<char> {
    if path.len() > 0 && path[0] == '/' {
        path.drop_first()
    } else {
        path
    }
}

/// Where the git site redirects a request for `path`: the same path under the
/// project's home on GitHub.
pub fn git_redirect_location(path: &str) -> (r: String)
    ensures
        r@ == "https://github.com/jaemk/"@ + path_tail(path@),
{
    let mut location = String::from_str("https://github.com/jaemk/");
    let n = path.unicode_len();
    if n > 0 && path.get_char(0) == '/' {
        location.append(path.substring_char(1, n));
        assert(path@.subrange(1, n as int) =~= path@.drop_first());
    } else {
        location.append(path);
    }
    location
}

/// A route that answers GET requests only; the countdown index answers any method, and
/// `NotFound` is the answer for any method.
pub open spec fn needs_get(route: Route) -> bool {
    route != Route::CountdownIndex && route != Route::NotFound
}

/// Whether a request with this method may be served on `route`: a GET always may, any
/// other method only where the route does not need GET.
pub fn method_allowed(route: Route, is_get: bool) -> (r: bool)
    ensures
        r == (is_get || !needs_get(route)),
{
    is_get || route == Route::CountdownIndex || route == Route::NotFound
}

/// The lower-case form of a text, as std's `str::to_lowercase` gives it.
pub uninterp spec fn lower_of(s: Seq<char>) -> Seq<char>;

/// Relies on std's `str::to_lowercase`: the result depends on the characters alone.
#[verifier::external_body]
fn lowercase(s: &str) -> (r: String)
    ensures
        r@ == lower_of(s@),
{
    s.to_lowercase()
}

/// `t` occurs in `s` as a run of consecutive characters.
pub open spec fn has_infix(s: Seq<char>, t: Seq<char>) -> bool {
    exists|i: int| 0 <= i && i + t.len() <= s.len() && #[trigger] s.subrange(i, i + t.len()) == t
}

fn contains_text(s: &str, t: &str) -> (r: bool)
    ensures
        r == has_infix(s@, t@),
{
    let n = s.unicode_len();
    let m = t.unicode_len();
    if m > n {
        return false;
    }
    let mut i: usize = 0;
    loop
        invariant
            n == s@.len(),
            m == t@.len(),
            m <= n,
            i <= n - m,
            forall|k: int| 0 <= k < i ==> #[trigger] s@.subrange(k, k + t@.len()) != t@,
        decreases n - m - i,
    {
        if same_text(s.substring_char(i, i + m), t) {
            assert(s@.subrange(i as int, i + t@.len()) == t@);
            return true;
        }
        if i == n - m {
            return false;
        }
        i = i + 1;
    }
}

/// Whether an Accept header value, already in lower case, asks for HTML.
pub fn mentions_html(lowered: &str) -> (r: bool)
    ensures
        r == has_infix(lowered@, "text/html"@),
{
    contains_text(lowered, "text/html")
}

/// Whether a request with this Accept header (if it gave one) asks for HTML: its lower
/// case form holds `text/html`.
pub fn wants_html(accept: Option<&str>) -> (r: bool)
    ensures
        r == match accept {
            Some(a) => has_infix(lower_of(a@), "text/html"@),
            None => false,
        },
{
    match accept {
        Some(a) => {
            let lowered = lowercase(a);
            mentions_html(lowered.as_str())
        },
        None => false,
    }
}

} // verus!
