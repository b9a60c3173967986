use vstd::prelude::*;
use vstd::string::StringExecFns;

verus! {

/// An incoming request, as handlers see it.
#[derive(Clone)]
pub struct Request;

/// A value that a handler extracts from a request.
pub trait FromRequest: Sized {
    /// `r` is what `from_request` extracts from `req`.
    spec fn extracted(req: Request, r: Self) -> bool;

    /// Extracts the value from `req`.
    fn from_request(req: &Request) -> (r: Self)
        ensures
            Self::extracted(*req, r),
    ;
}

/// A handler that takes the arguments `T`, each extracted from the request.
pub trait Handler<T>: Sized {
    /// The handler accepts every argument list that can be extracted from `req`.
    spec fn accepts(&self, req: Request) -> bool;

    /// The handler ran on arguments extracted from `req`.
    spec fn ran(&self, req: Request) -> bool;

    /// Extracts the arguments from `req` and runs the handler on them.
    fn call(self, req: Request)
        requires
            self.accepts(req),
        ensures
            self.ran(req),
    ;
}

impl<F, T1> Handler<(T1,)> for F where F: FnOnce(T1), T1: FromRequest {
    open spec fn accepts(&self, req: Request) -> bool {
        forall|t1: T1| T1::extracted(req, t1) ==> #[trigger] self.requires((t1,))
    }

    open spec fn ran(&self, req: Request) -> bool {
        exists|t1: T1|
            T1::extracted(req, t1) && #[trigger] self.ensures((t1,), ())
    }

    fn call(self, req: Request) {
        let t1 = T1::from_request(&req);
        self(t1);
        assert(self.ensures((t1,), ()));
    }
}

impl<F, T1, T2> Handler<(T1, T2)> for F where F: FnOnce(T1, T2), T1: FromRequest, T2: FromRequest {
    open spec fn accepts(&self, req: Request) -> bool {
        forall|t1: T1, t2: T2|
            T1::extracted(req, t1) && T2::extracted(req, t2) ==> #[trigger] self.requires((t1, t2))
    }

    open spec fn ran(&self, req: Request) -> bool {
        exists|t1: T1, t2: T2|
            T1::extracted(req, t1) && T2::extracted(req, t2) && #[trigger] self.ensures((t1, t2), ())
    }

    fn call(self, req: Request) {
        let t1 = T1::from_request(&req);
        let t2 = T2::from_request(&req);
        self(t1, t2);
        assert(self.ensures((t1, t2), ()));
    }
}

impl<F, T1, T2, T3> Handler<(T1, T2, T3)> for F where
    F: FnOnce(T1, T2, T3),
    T1: FromRequest,
    T2: FromRequest,
    T3: FromRequest,
 {
    open spec fn accepts(&self, req: Request) -> bool {
        forall|t1: T1, t2: T2, t3: T3|
            T1::extracted(req, t1) && T2::extracted(req, t2) && T3::extracted(req, t3)
                ==> #[trigger] self.requires((t1, t2, t3))
    }

    open spec fn ran(&self, req: Request) -> bool {
        exists|t1: T1, t2: T2, t3: T3|
            T1::extracted(req, t1) && T2::extracted(req, t2) && T3::extracted(req, t3) && #[trigger] self.ensures((t1, t2, t3), ())
    }

    fn call(self, req: Request) {
        let t1 = T1::from_request(&req);
        let t2 = T2::from_request(&req);
        let t3 = T3::from_request(&req);
        self(t1, t2, t3);
        assert(self.ensures((t1, t2, t3), ()));
    }
}

impl<F, T1, T2, T3, T4> Handler<(T1, T2, T3, T4)> for F where
    F: FnOnce(T1, T2, T3, T4),
    T1: FromRequest,
    T2: FromRequest,
    T3: FromRequest,
    T4: FromRequest,
 {
    open spec fn accepts(&self, req: Request) -> bool {
        forall|t1: T1, t2: T2, t3: T3, t4: T4|
            T1::extracted(req, t1) && T2::extracted(req, t2) && T3::extracted(req, t3)
                && T4::extracted(req, t4) ==> #[trigger] self.requires((t1, t2, t3, t4))
    }

    open spec fn ran(&self, req: Request) -> bool {
        exists|t1: T1, t2: T2, t3: T3, t4: T4|
            T1::extracted(req, t1) && T2::extracted(req, t2) && T3::extracted(req, t3)
                && T4::extracted(req, t4) && #[trigger] self.ensures((t1, t2, t3, t4), ())
    }

    fn call(self, req: Request) {
        let t1 = T1::from_request(&req);
        let t2 = T2::from_request(&req);
        let t3 = T3::from_request(&req);
        let t4 = T4::from_request(&req);
        self(t1, t2, t3, t4);
        assert(self.ensures((t1, t2, t3, t4), ()));
    }
}

/// A numeric parameter; every request carries 1.
pub struct Param1(pub usize);

/// A text parameter; every request carries "s".
pub struct Param2(pub String);

impl FromRequest for Param1 {
    open spec fn extracted(req: Request, r: Self) -> bool {
        r.0 == 1
    }

    fn from_request(req: &Request) -> (r: Self) {
        Param1(1)
    }
}

impl FromRequest for Param2 {
    open spec fn extracted(req: Request, r: Self) -> bool {
        r.0@ == "s"@
    }

    fn from_request(req: &Request) -> (r: Self) {
        Param2(String::from_str("s"))
    }
}

/// Runs `handler` on the arguments that it extracts from `req`.
pub fn on<T, H>(req: Request, handler: H) where H: Handler<T>
    requires
        handler.accepts(req),
    ensures
        handler.ran(req),
{
    handler.call(req);
}

/// Runs the one-argument function `handler` on the argument that it extracts from `req`; its
/// contract is stated over the function's own, so that any function can be passed.
pub fn on1<T1, F>(req: Request, handler: F) where F: FnOnce(T1), T1: FromRequest
    requires
        forall|t1: T1| T1::extracted(req, t1) ==> #[trigger] handler.requires((t1,)),
    ensures
        exists|t1: T1| T1::extracted(req, t1) && #[trigger] handler.ensures((t1,), ()),
{
    on::<(T1,), F>(req, handler);
}

/// Runs the two-argument function `handler` on the arguments that it extracts from `req`.
pub fn on2<T1, T2, F>(req: Request, handler: F) where F: FnOnce(T1, T2), T1: FromRequest, T2: FromRequest
    requires
        forall|t1: T1, t2: T2|
            T1::extracted(req, t1) && T2::extracted(req, t2) ==> #[trigger] handler.requires((t1, t2)),
    ensures
        exists|t1: T1, t2: T2|
            T1::extracted(req, t1) && T2::extracted(req, t2) && #[trigger] handler.ensures((t1, t2), ()),
{
    on::<(T1, T2), F>(req, handler);
}

/// Runs the three-argument function `handler` on the arguments that it extracts from `req`.
pub fn on3<T1, T2, T3, F>(req: Request, handler: F) where
    F: FnOnce(T1, T2, T3),
    T1: FromRequest,
    T2: FromRequest,
    T3: FromRequest,
    requires
        forall|t1: T1, t2: T2, t3: T3|
            T1::extracted(req, t1) && T2::extracted(req, t2) && T3::extracted(req, t3)
                ==> #[trigger] handler.requires((t1, t2, t3)),
    ensures
        exists|t1: T1, t2: T2, t3: T3|
            T1::extracted(req, t1) && T2::extracted(req, t2) && T3::extracted(req, t3)
                && #[trigger] handler.ensures((t1, t2, t3), ()),
{
    on::<(T1, T2, T3), F>(req, handler);
}

/// Runs the four-argument function `handler` on the arguments that it extracts from `req`.
pub fn on4<T1, T2, T3, T4, F>(req: Request, handler: F) where
    F: FnOnce(T1, T2, T3, T4),
    T1: FromRequest,
    T2: FromRequest,
    T3: FromRequest,
    T4: FromRequest,
    requires
        forall|t1: T1, t2: T2, t3: T3, t4: T4|
            T1::extracted(req, t1) && T2::extracted(req, t2) && T3::extracted(req, t3)
                && T4::extracted(req, t4) ==> #[trigger] handler.requires((t1, t2, t3, t4)),
    ensures
        exists|t1: T1, t2: T2, t3: T3, t4: T4|
            T1::extracted(req, t1) && T2::extracted(req, t2) && T3::extracted(req, t3)
                && T4::extracted(req, t4) && #[trigger] handler.ensures((t1, t2, t3, t4), ()),
{
    on::<(T1, T2, T3, T4), F>(req, handler);
}

} // verus!
