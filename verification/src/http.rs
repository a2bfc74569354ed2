//! Requests to other services.

use vstd::prelude::*;

verus! {

/// A GET request: the URL, the query parameters and the headers.
#[derive(Debug)]
pub struct HttpRequest {
    pub url: String,
    pub query: Vec<(String, String)>,
    pub headers: Vec<(String, String)>,
}

#[verifier::ext_equal]
pub struct HttpRequestView {
    pub url: Seq<char>,
    pub query: Seq<(Seq<char>, Seq<char>)>,
    pub headers: Seq<(Seq<char>, Seq<char>)>,
}

/// The names and values of a list of parameters.
pub open spec fn parameters(list: Seq<(String, String)>) -> Seq<(Seq<char>, Seq<char>)> {
    list.map_values(|p: (String, String)| (p.0@, p.1@))
}

impl View for HttpRequest {
    type V = HttpRequestView;

    open spec fn view(&self) -> HttpRequestView {
        HttpRequestView {
            url: self.url@,
            query: parameters(self.query@),
            headers: parameters(self.headers@),
        }
    }
}

impl HttpRequest {
    /// A request without parameters and headers.
    pub fn get(url: String) -> (r: HttpRequest)
        ensures
            r@ == (HttpRequestView { url: url@, query: Seq::empty(), headers: Seq::empty() }),
    {
        HttpRequest { url, query: Vec::new(), headers: Vec::new() }
    }

    /// This request with one more query parameter.
    pub fn with_query(self, name: &str, value: &str) -> (r: HttpRequest)
        ensures
            r@ == (HttpRequestView { query: self@.query.push((name@, value@)), ..self@ }),
    {
        let mut request = self;
        request.query.push((name.to_owned(), value.to_owned()));
        proof {
            assert(parameters(request.query@) =~= self@.query.push((name@, value@)));
        }
        request
    }

    /// This request with one more header.
    pub fn with_header(self, name: &str, value: &str) -> (r: HttpRequest)
        ensures
            r@ == (HttpRequestView { headers: self@.headers.push((name@, value@)), ..self@ }),
    {
        let mut request = self;
        request.headers.push((name.to_owned(), value.to_owned()));
        proof {
            assert(parameters(request.headers@) =~= self@.headers.push((name@, value@)));
        }
        request
    }
}

} // verus!
