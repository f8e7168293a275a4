//! The route table and the dispatcher.
use crate::envelope::{
    build_request, build_response, error_body, error_response, merged_headers, InboundEvent,
    OutboundEvent, Request, Response,
};
use crate::json::{json_accepts, json_string_literal};
use crate::path::{
    compile_path, compiled, match_path, match_result, segments_view, strings_view, Segment,
    SegmentView,
};
use crate::strmap::StringMap;
use vstd::prelude::*;

verus! {

/// The upper case form of `s` that std's `to_uppercase` gives.
pub uninterp spec fn upper_of(s: Seq<char>) -> Seq<char>;

/// Relies on str::to_uppercase, whose result depends on the characters of
/// `s` alone.
#[verifier::external_body]
fn to_upper(s: &str) -> (r: String)
    ensures
        r@ == upper_of(s@),
{
    s.to_uppercase()
}

/// A registered route as a mathematical value.
pub struct RouteView {
    pub segments: Seq<SegmentView>,
    /// The allowed methods, in upper case.
    pub methods: Seq<Seq<char>>,
}

/// A registered route: its compiled pattern, allowed methods and handler.
pub struct Route<H> {
    _path_pattern: String,
    methods: Vec<String>,
    segments: Vec<Segment>,
    handler: H,
}

impl<H> View for Route<H> {
    type V = RouteView;

    closed spec fn view(&self) -> RouteView {
        RouteView {
            segments: segments_view(self.segments@),
            methods: strings_view(self.methods@),
        }
    }
}

/// Why a pattern cannot be registered.
#[derive(Debug, PartialEq, Eq, Structural)]
pub enum RouteError {
    /// A component is `{}`: a parameter without a name.
    EmptyParameterName,
    /// Two parameters of the pattern have the same name.
    DuplicateParameterName,
}

/// Whether some segment is a parameter with an empty name.
pub open spec fn has_empty_param(segs: Seq<SegmentView>) -> bool {
    exists|i: int| 0 <= i < segs.len() && #[trigger] segs[i] == SegmentView::Param(Seq::empty())
}

/// Whether two segments are parameters of the same name.
pub open spec fn has_duplicate_param(segs: Seq<SegmentView>) -> bool {
    exists|i: int, j: int|
        0 <= i < j < segs.len() && (#[trigger] segs[i]) is Param && (#[trigger] segs[j]) is Param
            && segs[i]->Param_0 == segs[j]->Param_0
}

/// Whether a route accepts `method` (in upper case) on `path`.
pub open spec fn route_serves(r: RouteView, method: Seq<char>, path: Seq<char>) -> bool {
    match_result(r.segments, path) is Some && r.methods.contains(method)
}

/// Whether some route's pattern matches `path`, whatever its methods.
pub open spec fn some_path_matches(routes: Seq<RouteView>, path: Seq<char>) -> bool {
    exists|i: int| 0 <= i < routes.len() && match_result((#[trigger] routes[i]).segments, path) is Some
}

/// Whether some route accepts `method` on `path`.
pub open spec fn some_route_serves(routes: Seq<RouteView>, method: Seq<char>, path: Seq<char>) -> bool {
    exists|i: int| 0 <= i < routes.len() && route_serves(#[trigger] routes[i], method, path)
}

/// Whether route `k` is the first that accepts `method` on `path`.
pub open spec fn first_serving(routes: Seq<RouteView>, method: Seq<char>, path: Seq<char>, k: int) -> bool {
    &&& 0 <= k < routes.len()
    &&& route_serves(routes[k], method, path)
    &&& forall|j: int| 0 <= j < k ==> !route_serves(#[trigger] routes[j], method, path)
}

/// The outcome of scanning the route table for one method and path.
pub enum Selection {
    /// The first route that accepts the method on the path, with the
    /// parameters its pattern captured.
    Matched { route: usize, params: StringMap },
    /// Some pattern matches the path, but no such route accepts the method.
    MethodNotAllowed,
    /// No pattern matches the path.
    NotFound,
}

/// What the selection must be for `method` (upper case) and `path`.
pub open spec fn selection_ok(
    routes: Seq<RouteView>,
    method: Seq<char>,
    path: Seq<char>,
    s: Selection,
) -> bool {
    match s {
        Selection::Matched { route, params } => {
            &&& first_serving(routes, method, path, route as int)
            &&& params@ == match_result(routes[route as int].segments, path)->0
        },
        Selection::MethodNotAllowed => {
            &&& !some_route_serves(routes, method, path)
            &&& some_path_matches(routes, path)
        },
        Selection::NotFound => !some_path_matches(routes, path),
    }
}

/// The next step of a dispatch: a handler to run, or the outbound event.
pub enum Dispatch {
    /// Run the handler of route `route` on `request`.
    Invoke { route: usize, request: Request },
    /// Send this event back.
    Respond(OutboundEvent),
}

/// The path of an inbound event: the root path when absent.
pub open spec fn event_path(event: InboundEvent) -> Seq<char> {
    match event.path {
        Some(p) => p@,
        None => seq!['/'],
    }
}

/// The error message of a failed handler.
pub open spec fn failure_message(description: Seq<char>) -> Seq<char> {
    seq![
        'I', 'n', 't', 'e', 'r', 'n', 'a', 'l', ' ', 'S', 'e', 'r', 'v', 'e', 'r', ' ', 'E', 'r',
        'r', 'o', 'r', ':', ' '
    ] + description
}

pub open spec fn not_found_message() -> Seq<char> {
    seq!['N', 'o', 't', ' ', 'F', 'o', 'u', 'n', 'd']
}

pub open spec fn method_not_allowed_message() -> Seq<char> {
    seq!['M', 'e', 't', 'h', 'o', 'd', ' ', 'N', 'o', 't', ' ', 'A', 'l', 'l', 'o', 'w', 'e', 'd']
}

/// The application: an ordered table of routes, each with a handler of
/// type `H`, scanned in registration order.
pub struct Choko<H> {
    _app_name: String,
    routes: Vec<Route<H>>,
}

impl<H> Choko<H> {
    /// The routes in registration order.
    pub closed spec fn routes_view(&self) -> Seq<RouteView> {
        self.routes@.map_values(|r: Route<H>| r@)
    }

    pub closed spec fn handler_spec(&self, i: int) -> H {
        self.routes@[i].handler
    }

    /// A new application with no routes.
    pub fn new(app_name: &str) -> (r: Choko<H>)
        ensures
            r.routes_view() == Seq::<RouteView>::empty(),
    {
        let r = Choko { _app_name: app_name.to_owned(), routes: Vec::new() };
        proof {
            assert(r.routes_view() =~= Seq::<RouteView>::empty());
        }
        r
    }

    /// The number of registered routes.
    pub fn num_routes(&self) -> (n: usize)
        ensures
            n == self.routes_view().len(),
    {
        self.routes.len()
    }

    /// The handler of route `i`.
    pub fn handler(&self, i: usize) -> (h: &H)
        requires
            i < self.routes_view().len(),
        ensures
            *h == self.handler_spec(i as int),
    {
        &self.routes[i].handler
    }

    /// Registers a route: `path` is compiled at once and `methods` are kept
    /// in upper case. A pattern with an unnamed parameter `{}` or with two
    /// parameters of one name is refused, and the table is left unchanged.
    pub fn route(&mut self, path: &str, methods: &[&str], handler: H) -> (r: Result<(), RouteError>)
        ensures
            has_empty_param(compiled(path@)) ==> r == Err::<(), RouteError>(
                RouteError::EmptyParameterName,
            ),
            !has_empty_param(compiled(path@)) && has_duplicate_param(compiled(path@)) ==> r == Err::<
                (),
                RouteError,
            >(RouteError::DuplicateParameterName),
            r is Err ==> final(self).routes_view() == old(self).routes_view(),
            r is Ok <==> !has_empty_param(compiled(path@)) && !has_duplicate_param(compiled(path@)),
            r is Ok ==> final(self).routes_view() == old(self).routes_view().push(
                RouteView {
                    segments: compiled(path@),
                    methods: methods@.map_values(|m: &str| upper_of(m@)),
                },
            ),
            r is Ok ==> final(self).handler_spec(old(self).routes_view().len() as int) == handler,
            forall|i: int|
                0 <= i < old(self).routes_view().len() ==> final(self).handler_spec(i)
                    == old(self).handler_spec(i),
    {
        let segments = compile_path(path);
        check_params(&segments)?;
        let mut upper: Vec<String> = Vec::new();
        let mut i: usize = 0;
        while i < methods.len()
            invariant
                i <= methods@.len(),
                strings_view(upper@) == methods@.take(i as int).map_values(
                    |m: &str| upper_of(m@),
                ),
            decreases methods@.len() - i,
        {
            let m = to_upper(methods[i]);
            let ghost before = upper@;
            upper.push(m);
            proof {
                assert(strings_view(upper@) =~= strings_view(before).push(
                    upper_of(methods@[i as int]@),
                ));
                assert(methods@.take(i + 1).map_values(|m: &str| upper_of(m@)) =~= methods@.take(
                    i as int,
                ).map_values(|m: &str| upper_of(m@)).push(upper_of(methods@[i as int]@)));
            }
            i = i + 1;
        }
        proof {
            assert(methods@.take(i as int) =~= methods@);
        }
        let route = Route { _path_pattern: path.to_owned(), methods: upper, segments, handler };
        self.routes.push(route);
        proof {
            assert(self.routes_view() =~= old(self).routes_view().push(route@));
        }
        Ok(())
    }

    /// Scans the routes in registration order for the first whose pattern
    /// matches `path` and whose methods hold `method` (already upper case),
    /// noting meanwhile whether any pattern matched.
    pub fn select(&self, method: &String, path: &str) -> (r: Selection)
        ensures
            selection_ok(self.routes_view(), method@, path@, r),
    {
        let ghost routes = self.routes_view();
        let mut path_matched = false;
        let mut i: usize = 0;
        while i < self.routes.len()
            invariant
                i <= routes.len(),
                routes == self.routes_view(),
                forall|j: int| 0 <= j < i ==> !route_serves(#[trigger] routes[j], method@, path@),
                path_matched <==> exists|j: int|
                    0 <= j < i && match_result((#[trigger] routes[j]).segments, path@) is Some,
            decreases routes.len() - i,
        {
            let route = &self.routes[i];
            proof {
                assert(routes[i as int] == route@);
            }
            match match_path(route.segments.as_slice(), path) {
                Some(params) => {
                    path_matched = true;
                    if contains_method(&route.methods, method) {
                        return Selection::Matched { route: i, params };
                    }
                },
                None => {},
            }
            i = i + 1;
        }
        if path_matched {
            Selection::MethodNotAllowed
        } else {
            Selection::NotFound
        }
    }

    /// The first step of a dispatch: the method is put in upper case and
    /// the path defaults to the root; a selected route gets its request
    /// built, and otherwise the 405 or 404 envelope is ready.
    pub fn dispatch(&self, event: InboundEvent) -> (r: Dispatch)
        ensures
            dispatch_ok(self.routes_view(), event, r),
    {
        let method = to_upper(event.http_method.as_str());
        let path = match &event.path {
            Some(p) => p.clone(),
            None => String::from_str("/"),
        };
        proof {
            reveal_strlit("/");
            assert(path@ =~= event_path(event));
        }
        match self.select(&method, path.as_str()) {
            Selection::Matched { route, params } => {
                let request = build_request(event, params);
                Dispatch::Invoke { route, request }
            },
            Selection::MethodNotAllowed => {
                let m = String::from_str("Method Not Allowed");
                proof {
                    reveal_strlit("Method Not Allowed");
                    assert(m@ =~= method_not_allowed_message());
                }
                Dispatch::Respond(error_response(405, m.as_str()))
            },
            Selection::NotFound => {
                let m = String::from_str("Not Found");
                proof {
                    reveal_strlit("Not Found");
                    assert(m@ =~= not_found_message());
                }
                Dispatch::Respond(error_response(404, m.as_str()))
            },
        }
    }
}

/// What the first step of a dispatch must give for `event`.
pub open spec fn dispatch_ok(routes: Seq<RouteView>, event: InboundEvent, d: Dispatch) -> bool {
    let method = upper_of(event.http_method@);
    let path = event_path(event);
    match d {
        Dispatch::Invoke { route, request } => {
            &&& first_serving(routes, method, path, route as int)
            &&& request.path_params@ == match_result(routes[route as int].segments, path)->0
            &&& request.query_params == event.query_string_parameters
            &&& request.headers == event.headers
            &&& request.body == event.body
            &&& (request.json_body is Some <==> (event.body is Some && json_accepts(
                event.body->0@,
            )))
        },
        Dispatch::Respond(out) => {
            &&& !some_route_serves(routes, method, path)
            &&& out.headers@ == merged_headers(Seq::empty())
            &&& out.body is Some
            &&& if some_path_matches(routes, path) {
                &&& out.status_code == 405
                &&& out.body->0@ == error_body(json_string_literal(method_not_allowed_message()))
            } else {
                &&& out.status_code == 404
                &&& out.body->0@ == error_body(json_string_literal(not_found_message()))
            }
        },
    }
}

/// Whether `methods` holds `method`.
fn contains_method(methods: &Vec<String>, method: &String) -> (b: bool)
    ensures
        b == strings_view(methods@).contains(method@),
{
    let mut i: usize = 0;
    while i < methods.len()
        invariant
            i <= methods@.len(),
            forall|j: int| 0 <= j < i ==> (#[trigger] methods@[j])@ != method@,
        decreases methods@.len() - i,
    {
        if methods[i] == *method {
            proof {
                assert(strings_view(methods@)[i as int] == method@);
            }
            return true;
        }
        i = i + 1;
    }
    proof {
        if strings_view(methods@).contains(method@) {
            let k = choose|k: int|
                0 <= k < methods@.len() && #[trigger] strings_view(methods@)[k]
                    == method@;
            assert(methods@[k]@ == method@);
        }
    }
    false
}

/// Refuses segments with an unnamed parameter, then segments with two
/// parameters of one name.
fn check_params(segs: &Vec<Segment>) -> (r: Result<(), RouteError>)
    ensures
        has_empty_param(segments_view(segs@)) ==> r == Err::<(), RouteError>(
            RouteError::EmptyParameterName,
        ),
        !has_empty_param(segments_view(segs@)) && has_duplicate_param(segments_view(segs@)) ==> r
            == Err::<(), RouteError>(RouteError::DuplicateParameterName),
        r is Ok <==> !has_empty_param(segments_view(segs@)) && !has_duplicate_param(
            segments_view(segs@),
        ),
{
    let ghost v = segments_view(segs@);
    let mut i: usize = 0;
    while i < segs.len()
        invariant
            i <= segs@.len(),
            v == segments_view(segs@),
            forall|j: int| 0 <= j < i ==> #[trigger] v[j] != SegmentView::Param(Seq::empty()),
        decreases segs@.len() - i,
    {
        proof {
            assert(v[i as int] == segs@[i as int]@);
        }
        match &segs[i] {
            Segment::Param(name) => {
                if name.as_str().unicode_len() == 0 {
                    proof {
                        assert(name@ =~= Seq::<char>::empty());
                        assert(v[i as int] == SegmentView::Param(Seq::empty()));
                    }
                    return Err(RouteError::EmptyParameterName);
                }
            },
            Segment::Literal(_) => {},
        }
        i = i + 1;
    }
    let mut a: usize = 0;
    while a < segs.len()
        invariant
            a <= segs@.len(),
            v == segments_view(segs@),
            !has_empty_param(v),
            forall|x: int, y: int|
                0 <= x < a && x < y < v.len() && (#[trigger] v[x]) is Param && (#[trigger] v[y]) is Param
                    ==> v[x]->Param_0 != v[y]->Param_0,
        decreases segs@.len() - a,
    {
        match &segs[a] {
            Segment::Param(first) => {
                let mut b: usize = a + 1;
                while b < segs.len()
                    invariant
                        a < b <= segs@.len(),
                        v == segments_view(segs@),
                        v[a as int] == SegmentView::Param(first@),
                        !has_empty_param(v),
                        forall|y: int|
                            a < y < b && (#[trigger] v[y]) is Param ==> first@ != v[y]->Param_0,
                    decreases segs@.len() - b,
                {
                    proof {
                        assert(v[b as int] == segs@[b as int]@);
                    }
                    match &segs[b] {
                        Segment::Param(second) => {
                            if *first == *second {
                                proof {
                                    assert(v[a as int] is Param && v[b as int] is Param);
                                    assert(has_duplicate_param(v));
                                }
                                return Err(RouteError::DuplicateParameterName);
                            }
                        },
                        Segment::Literal(_) => {},
                    }
                    b = b + 1;
                }
            },
            Segment::Literal(_) => {
                proof {
                    assert(v[a as int] == segs@[a as int]@);
                }
            },
        }
        a = a + 1;
    }
    Ok(())
}

/// The last step of a dispatch: the handler's response is encoded, and a
/// failure becomes a 500 envelope that quotes its description.
pub fn complete(outcome: Result<Response, String>) -> (r: OutboundEvent)
    ensures
        outcome is Ok ==> {
            &&& r.status_code == outcome->Ok_0.status_code
            &&& r.headers@ == merged_headers(outcome->Ok_0.headers.pairs())
            &&& r.body is Some
        },
        outcome is Err ==> {
            &&& r.status_code == 500
            &&& r.headers@ == merged_headers(Seq::empty())
            &&& r.body is Some
            &&& r.body->0@ == error_body(json_string_literal(failure_message(outcome->Err_0@)))
        },
{
    match outcome {
        Ok(resp) => build_response(&resp),
        Err(description) => {
            let mut m = String::from_str("Internal Server Error: ");
            m.append(description.as_str());
            proof {
                reveal_strlit("Internal Server Error: ");
                assert(m@ =~= failure_message(description@));
            }
            error_response(500, m.as_str())
        },
    }
}

/// Two first steps of a dispatch agree: the same route and parameters, the
/// same request apart from the parsed body's value, or the same envelope.
pub open spec fn same_step(a: Dispatch, b: Dispatch) -> bool {
    match (a, b) {
        (
            Dispatch::Invoke { route: r1, request: q1 },
            Dispatch::Invoke { route: r2, request: q2 },
        ) => {
            &&& r1 == r2
            &&& q1.path_params@ == q2.path_params@
            &&& q1.query_params == q2.query_params
            &&& q1.headers == q2.headers
            &&& q1.body == q2.body
            &&& (q1.json_body is Some <==> q2.json_body is Some)
        },
        (Dispatch::Respond(o1), Dispatch::Respond(o2)) => {
            &&& o1.status_code == o2.status_code
            &&& o1.headers@ == o2.headers@
            &&& o1.body is Some && o2.body is Some
            &&& o1.body->0@ == o2.body->0@
        },
        _ => false,
    }
}

/// At most one route is the first to serve a method and path.
pub proof fn lemma_first_serving_unique(
    routes: Seq<RouteView>,
    method: Seq<char>,
    path: Seq<char>,
    a: int,
    b: int,
)
    requires
        first_serving(routes, method, path, a),
        first_serving(routes, method, path, b),
    ensures
        a == b,
{
    if a < b {
        assert(!route_serves(routes[a], method, path));
    } else if b < a {
        assert(!route_serves(routes[b], method, path));
    }
}

/// Dispatching one event twice against an unchanged table takes the same
/// first step both times: nothing is carried from one dispatch to the next.
pub proof fn lemma_dispatch_idempotent<H>(
    app: &Choko<H>,
    event: InboundEvent,
    first: Dispatch,
    second: Dispatch,
)
    requires
        dispatch_ok(app.routes_view(), event, first),
        dispatch_ok(app.routes_view(), event, second),
    ensures
        same_step(first, second),
{
    let routes = app.routes_view();
    let method = upper_of(event.http_method@);
    let path = event_path(event);
    match (first, second) {
        (Dispatch::Invoke { route: r1, .. }, Dispatch::Invoke { route: r2, .. }) => {
            lemma_first_serving_unique(routes, method, path, r1 as int, r2 as int);
        },
        (Dispatch::Invoke { route: r1, .. }, Dispatch::Respond(_)) => {
            assert(route_serves(routes[r1 as int], method, path));
        },
        (Dispatch::Respond(_), Dispatch::Invoke { route: r2, .. }) => {
            assert(route_serves(routes[r2 as int], method, path));
        },
        _ => {},
    }
}

} // verus!
