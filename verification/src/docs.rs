//! A static description of the registry's HTTP-boundary surface, for the
//! documentation layer that sits in front of the registry.

use vstd::prelude::*;

verus! {

/// The HTTP method of a documented route.
#[derive(Clone, Copy, Debug, PartialEq, Eq, Structural)]
pub enum HttpMethod {
    Get,
    Post,
    Put,
    Delete,
}

/// One documented route of the registry surface.
pub struct RouteDoc {
    pub method: HttpMethod,
    pub path: String,
}

/// The registry's API surface, one entry per route.
pub struct ApiDoc;

impl ApiDoc {
    /// Every route of the CRUD surface, correlations first, each as its
    /// method and path template.
    pub fn routes() -> (r: Vec<RouteDoc>)
        ensures
            r@.len() == 10,
            r@[0].method == HttpMethod::Get && r@[0].path@ == "/correlations"@,
            r@[1].method == HttpMethod::Get && r@[1].path@ == "/correlations/{id}"@,
            r@[2].method == HttpMethod::Post && r@[2].path@ == "/correlations"@,
            r@[3].method == HttpMethod::Put && r@[3].path@ == "/correlations/{id}"@,
            r@[4].method == HttpMethod::Delete && r@[4].path@ == "/correlations/{id}"@,
            r@[5].method == HttpMethod::Post && r@[5].path@ == "/targets"@,
            r@[6].method == HttpMethod::Get && r@[6].path@ == "/targets"@,
            r@[7].method == HttpMethod::Get && r@[7].path@ == "/targets/{id}"@,
            r@[8].method == HttpMethod::Put && r@[8].path@ == "/targets/{id}"@,
            r@[9].method == HttpMethod::Delete && r@[9].path@ == "/targets/{id}"@,
    {
        let mut r: Vec<RouteDoc> = Vec::new();
        r.push(RouteDoc { method: HttpMethod::Get, path: "/correlations".to_owned() });
        r.push(RouteDoc { method: HttpMethod::Get, path: "/correlations/{id}".to_owned() });
        r.push(RouteDoc { method: HttpMethod::Post, path: "/correlations".to_owned() });
        r.push(RouteDoc { method: HttpMethod::Put, path: "/correlations/{id}".to_owned() });
        r.push(RouteDoc { method: HttpMethod::Delete, path: "/correlations/{id}".to_owned() });
        r.push(RouteDoc { method: HttpMethod::Post, path: "/targets".to_owned() });
        r.push(RouteDoc { method: HttpMethod::Get, path: "/targets".to_owned() });
        r.push(RouteDoc { method: HttpMethod::Get, path: "/targets/{id}".to_owned() });
        r.push(RouteDoc { method: HttpMethod::Put, path: "/targets/{id}".to_owned() });
        r.push(RouteDoc { method: HttpMethod::Delete, path: "/targets/{id}".to_owned() });
        r
    }
}

} // verus!
