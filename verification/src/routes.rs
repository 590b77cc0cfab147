use crate::router::{filed, Method, Route, Router};
use vstd::prelude::*;
use vstd::string::StringExecFns;

verus! {

/// The route of the start page.
pub open spec fn is_index(route: Route) -> bool {
    route.code == 200 && route.path@ == "static/index.html"@
}

/// Files the routes of the site: `GET /` serves the start page.
pub fn configure(router: &mut Router<Route>)
    requires
        old(router).wf(),
    ensures
        final(router).wf(),
        exists|route: Route|
            is_index(route) && final(router)@ == filed(old(router)@, Method::GET, "/"@, route),
{
    let route = index();
    router.insert(Method::GET, "/", route);
}

/// The route of the start page.
pub fn index() -> (route: Route)
    ensures
        is_index(route),
{
    Route { code: 200, path: String::from_str("static/index.html") }
}

} // verus!
