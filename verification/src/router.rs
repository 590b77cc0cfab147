use crate::route_path::{Node, Trie};
use crate::text::{chars_of, find, first_index, lemma_first_index, next_word, word_at};
use vstd::prelude::*;
use vstd::string::StrSliceExecFns;

verus! {

/// The request methods that can be routed.
#[derive(Clone, Copy, Debug, PartialEq, Eq, Hash, Structural)]
pub enum Method {
    GET,
}

/// A handler that is plain data: the status to answer with and the path of
/// the file to serve.
pub struct Route {
    pub code: i32,
    pub path: String,
}

/// What a request resolves to.
pub enum Resolution<'a, H> {
    /// Nothing was sent: there is nothing to answer.
    Empty,
    /// The request line is malformed: it has fewer than two words, or its
    /// first word is no method that can be routed.
    BadRequest,
    /// The request line is well formed, but no handler is filed under its
    /// path.
    NotFound,
    /// The handler that is filed under the path of the request.
    Found(&'a H),
}

/// What a request resolves to, as contracts see it.
pub enum Resolved<H> {
    Empty,
    BadRequest,
    NotFound,
    Found(H),
}

impl<'a, H> View for Resolution<'a, H> {
    type V = Resolved<H>;

    open spec fn view(&self) -> Resolved<H> {
        match *self {
            Resolution::Empty => Resolved::Empty,
            Resolution::BadRequest => Resolved::BadRequest,
            Resolution::NotFound => Resolved::NotFound,
            Resolution::Found(handler) => Resolved::Found(*handler),
        }
    }
}

/// The first line of a request: what stands before the first line feed.
pub open spec fn first_line(request: Seq<char>) -> Seq<char> {
    match first_index(request, '\n') {
        Some(i) => request.take(i),
        None => request,
    }
}

/// The first two words of the first line of a request: the method and the
/// path. `None` where the line has fewer than two words.
pub open spec fn request_line(request: Seq<char>) -> Option<(Seq<char>, Seq<char>)> {
    let line = first_line(request);
    match word_at(line, 0) {
        Some((a, b)) => match word_at(line, b) {
            Some((c, d)) => Some((line.subrange(a, b), line.subrange(c, d))),
            None => None,
        },
        None => None,
    }
}

/// The position of the routing tree of `method` among `entries`.
pub open spec fn tree_of<H>(entries: Seq<(Method, Trie<H>)>, method: Method) -> Option<int>
    decreases entries.len(),
{
    if entries.len() == 0 {
        None
    } else if entries[0].0 == method {
        Some(0)
    } else {
        match tree_of(entries.drop_first(), method) {
            Some(i) => Some(i + 1),
            None => None,
        }
    }
}

/// `tree_of` finds an entry of that method before which there is none, and
/// finds one whenever there is any.
pub proof fn lemma_tree_of<H>(entries: Seq<(Method, Trie<H>)>, method: Method)
    ensures
        match tree_of(entries, method) {
            Some(i) => 0 <= i < entries.len() && entries[i].0 == method && forall|j: int|
                0 <= j < i ==> entries[j].0 != method,
            None => forall|j: int| 0 <= j < entries.len() ==> entries[j].0 != method,
        },
    decreases entries.len(),
{
    if entries.len() > 0 && entries[0].0 != method {
        let rest = entries.drop_first();
        lemma_tree_of(rest, method);
        match tree_of(rest, method) {
            Some(i) => {
                assert(rest[i] == entries[i + 1]);
                assert forall|j: int| 0 <= j < i + 1 implies entries[j].0 != method by {
                    if j > 0 {
                        assert(rest[j - 1] == entries[j]);
                    }
                }
            },
            None => {
                assert forall|j: int| 0 <= j < entries.len() implies entries[j].0 != method by {
                    if j > 0 {
                        assert(rest[j - 1] == entries[j]);
                    }
                }
            },
        }
    }
}

/// Whether no method has more than one routing tree among `entries`.
pub open spec fn each_method_once<H>(entries: Seq<(Method, Trie<H>)>) -> bool {
    forall|i: int, j: int|
        0 <= i < j < entries.len() ==> (#[trigger] entries[i]).0 != (#[trigger] entries[j]).0
}

/// Filing a handler keeps one routing tree to a method.
pub proof fn lemma_filed_keeps_methods_once<H>(
    entries: Seq<(Method, Trie<H>)>,
    method: Method,
    path: Seq<char>,
    handler: H,
)
    requires
        each_method_once(entries),
    ensures
        each_method_once(filed(entries, method, path, handler)),
{
    lemma_tree_of(entries, method);
    let after = filed(entries, method, path, handler);
    assert forall|i: int, j: int| 0 <= i < j < after.len() implies (#[trigger] after[i]).0 != (
    #[trigger] after[j]).0 by {
        match tree_of(entries, method) {
            Some(k) => {
                assert(after[i].0 == entries[i].0);
                assert(after[j].0 == entries[j].0);
            },
            None => {
                if j < entries.len() {
                    assert(after[i] == entries[i]);
                    assert(after[j] == entries[j]);
                } else {
                    assert(after[i] == entries[i]);
                    assert(entries[i].0 != method);
                }
            },
        }
    }
}

/// The handler that is filed under `resource` for `method`.
pub open spec fn handler_of<H>(
    entries: Seq<(Method, Trie<H>)>,
    method: Method,
    resource: Seq<char>,
) -> Option<H> {
    match tree_of(entries, method) {
        Some(i) => entries[i].1.lookup(resource),
        None => None,
    }
}

/// The entries once `handler` is filed under `path` for `method`: in the
/// tree of the method, or in a new tree whose root stands for `/` where the
/// method has none yet.
pub open spec fn filed<H>(
    entries: Seq<(Method, Trie<H>)>,
    method: Method,
    path: Seq<char>,
    handler: H,
) -> Seq<(Method, Trie<H>)> {
    match tree_of(entries, method) {
        Some(i) => entries.update(i, (method, entries[i].1.insert(path, handler))),
        None => entries.push((method, Trie::leaf("/"@).insert(path, handler))),
    }
}

/// What a request resolves to.
///
/// An empty request resolves to nothing. Otherwise the first line is cut
/// into words. With fewer than two words, or with a first word other than
/// `GET`, the request is bad. Otherwise it resolves to the handler that is
/// filed under its second word, or to not found where there is none.
pub open spec fn resolved<H>(entries: Seq<(Method, Trie<H>)>, request: Seq<char>) -> Resolved<H> {
    if request.len() == 0 {
        Resolved::Empty
    } else {
        match request_line(request) {
            Some((method, path)) => if method == "GET"@ {
                match handler_of(entries, Method::GET, path) {
                    Some(handler) => Resolved::Found(handler),
                    None => Resolved::NotFound,
                }
            } else {
                Resolved::BadRequest
            },
            None => Resolved::BadRequest,
        }
    }
}

/// The status and the path of the file that answer a request which resolved
/// to plain data.
pub open spec fn answer(resolution: Resolved<Route>) -> (i32, Seq<char>) {
    match resolution {
        Resolved::Found(route) => (route.code, route.path@),
        Resolved::NotFound => (404, "static/404.html"@),
        Resolved::BadRequest => (400, "static/400.html"@),
        Resolved::Empty => (400, "static/400.html"@),
    }
}

/// The routing trees, one for each method that has handlers: a table from
/// method to tree, in which no method occurs twice.
pub struct Router<H> {
    routers: Vec<(Method, Node<H>)>,
}

impl<H> View for Router<H> {
    type V = Seq<(Method, Trie<H>)>;

    closed spec fn view(&self) -> Seq<(Method, Trie<H>)> {
        Seq::new(self.routers@.len(), |i: int| (self.routers@[i].0, self.routers@[i].1@))
    }
}

impl<H> Router<H> {
    /// The invariant of the table: each method has at most one tree.
    pub open spec fn wf(&self) -> bool {
        each_method_once(self@)
    }

    /// A router without handlers.
    pub fn new() -> (router: Router<H>)
        ensures
            router@ == Seq::<(Method, Trie<H>)>::empty(),
            router.wf(),
    {
        let router = Router { routers: Vec::new() };
        assert(router@ =~= Seq::<(Method, Trie<H>)>::empty());
        router
    }

    fn position(&self, method: Method) -> (r: Option<usize>)
        ensures
            match r {
                Some(i) => i < self.routers@.len() && tree_of(self@, method) == Some(i as int),
                None => tree_of(self@, method) is None,
            },
    {
        let mut i: usize = 0;
        while i < self.routers.len()
            invariant
                i <= self.routers@.len(),
                self@.len() == self.routers@.len(),
                forall|j: int| 0 <= j < i ==> self@[j].0 != method,
            decreases self.routers.len() - i,
        {
            assert(self@[i as int].0 == self.routers@[i as int].0);
            if self.routers[i].0 == method {
                proof {
                    lemma_tree_of(self@, method);
                }
                return Some(i);
            }
            i = i + 1;
        }
        proof {
            lemma_tree_of(self@, method);
        }
        None
    }

    /// Files `handler` under `path` for `method`, as `filed` says.
    pub fn insert(&mut self, method: Method, path: &str, handler: H)
        requires
            old(self).wf(),
        ensures
            final(self).wf(),
            final(self)@ == filed(old(self)@, method, path@, handler),
    {
        proof {
            lemma_filed_keeps_methods_once(old(self)@, method, path@, handler);
        }
        match self.position(method) {
            Some(i) => {
                assert(old(self)@[i as int].1 == old(self).routers@[i as int].1@);
                self.routers[i].1.insert(path, handler);
                assert(self@ =~= filed(old(self)@, method, path@, handler));
            },
            None => {
                let mut node = Node::new("/");
                node.insert(path, handler);
                self.routers.push((method, node));
                assert(self@ =~= filed(old(self)@, method, path@, handler));
            },
        }
    }

    /// The handler that is filed under `resource` for `method`.
    pub fn handle(&self, method: Method, resource: &str) -> (r: Option<&H>)
        ensures
            match r {
                Some(h) => handler_of(self@, method, resource@) == Some(*h),
                None => handler_of(self@, method, resource@) is None,
            },
    {
        match self.position(method) {
            Some(i) => {
                assert(self@[i as int].1 == self.routers@[i as int].1@);
                self.routers[i].1.get(resource)
            },
            None => None,
        }
    }

    /// What `request` resolves to, as `resolved` says.
    pub fn route_client(&self, request: &str) -> (r: Resolution<'_, H>)
        ensures
            r@ == resolved(self@, request@),
    {
        let chars = chars_of(request);
        if chars.len() == 0 {
            return Resolution::Empty;
        }
        let end = match find(&chars, '\n') {
            Some(i) => i,
            None => chars.len(),
        };
        proof {
            lemma_first_index(request@, '\n');
            assert(request@.take(request@.len() as int) =~= request@);
        }
        let ghost line = first_line(request@);
        assert(line == chars@.take(end as int));
        match next_word(&chars, end, 0) {
            Some((a, b)) => match next_word(&chars, end, b) {
                Some((c, d)) => {
                    let method = request.substring_char(a, b);
                    let path = request.substring_char(c, d);
                    assert(method@ =~= line.subrange(a as int, b as int));
                    assert(path@ =~= line.subrange(c as int, d as int));
                    if *method == *"GET" {
                        match self.handle(Method::GET, path) {
                            Some(handler) => Resolution::Found(handler),
                            None => Resolution::NotFound,
                        }
                    } else {
                        Resolution::BadRequest
                    }
                },
                None => Resolution::BadRequest,
            },
            None => Resolution::BadRequest,
        }
    }

    /// The status and the file that answer a request for which no handler
    /// is filed.
    pub fn not_found(&self) -> (r: (i32, &'static str))
        ensures
            r.0 == 404,
            r.1@ == "static/404.html"@,
    {
        (404, "static/404.html")
    }

    /// The status and the file that answer a malformed request.
    pub fn bad_request(&self) -> (r: (i32, &'static str))
        ensures
            r.0 == 400,
            r.1@ == "static/400.html"@,
    {
        (400, "static/400.html")
    }
}

impl Router<Route> {
    /// The status and the path of the file that answer `request`: those of
    /// the route that it resolves to, and those of the error pages where it
    /// resolves to none.
    pub fn resolve(&self, request: &str) -> (r: (i32, String))
        ensures
            r.0 == answer(resolved(self@, request@)).0,
            r.1@ == answer(resolved(self@, request@)).1,
    {
        match self.route_client(request) {
            Resolution::Found(route) => (route.code, route.path.clone()),
            Resolution::NotFound => {
                let page = self.not_found();
                (page.0, String::from_str(page.1))
            },
            _ => {
                let page = self.bad_request();
                (page.0, String::from_str(page.1))
            },
        }
    }
}

} // verus!
