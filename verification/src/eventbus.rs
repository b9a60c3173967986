use vstd::prelude::*;

verus! {

/// A published event: the data handed to the subscribed handler.
pub struct Request<T> {
    pub data: T,
}

impl<T> Request<T> {
    /// A request that carries `data`.
    pub fn new(data: T) -> (r: Self)
        ensures
            r.data == data,
    {
        Self { data }
    }
}

/// Arguments that a handler extracts from a request carrying a `T`.
pub trait FromRequest<T>: Sized {
    /// `r` is what `from_request` extracts from `req`.
    spec fn extracted(req: Request<T>, r: Self) -> bool;

    /// Extracts the arguments from `req`.
    fn from_request(req: &Request<T>) -> (r: Self)
        ensures
            Self::extracted(*req, r),
    ;
}

/// A subscriber that is called with the data of a request carrying a `T`.
pub trait Handler<T> {
    /// The handler accepts whatever can be extracted from `req`.
    spec fn accepts(&self, req: Request<T>) -> bool;

    /// The handler ran on what was extracted from `req`.
    spec fn ran(&self, req: Request<T>) -> bool;

    /// Runs the handler on the data of `req`.
    fn call(&self, req: Request<T>)
        requires
            self.accepts(req),
        ensures
            self.ran(req),
    ;
}

impl<F> Handler<()> for F where F: FnOnce() + Copy {
    open spec fn accepts(&self, req: Request<()>) -> bool {
        self.requires(())
    }

    open spec fn ran(&self, req: Request<()>) -> bool {
        self.ensures((), ())
    }

    fn call(&self, req: Request<()>) {
        let f = *self;
        f()
    }
}

impl<'a> FromRequest<&'a str> for &'a str {
    open spec fn extracted(req: Request<&'a str>, r: Self) -> bool {
        r == req.data
    }

    fn from_request(req: &Request<&'a str>) -> (r: Self) {
        req.data
    }
}

impl<'a, T1> FromRequest<&'a T1> for &'a T1 where T1: FromRequest<T1> + Copy {
    open spec fn extracted(req: Request<&'a T1>, r: Self) -> bool {
        r == req.data
    }

    fn from_request(req: &Request<&'a T1>) -> (r: Self) {
        req.data
    }
}

impl<T1: Copy, const N: usize> FromRequest<[T1; N]> for [T1; N] {
    open spec fn extracted(req: Request<[T1; N]>, r: Self) -> bool {
        r == req.data
    }

    fn from_request(req: &Request<[T1; N]>) -> (r: Self) {
        req.data
    }
}

impl<'a, T1> FromRequest<&'a [T1]> for &'a [T1] where T1: FromRequest<T1> + Copy {
    open spec fn extracted(req: Request<&'a [T1]>, r: Self) -> bool {
        r == req.data
    }

    fn from_request(req: &Request<&'a [T1]>) -> (r: Self) {
        req.data
    }
}

impl FromRequest<i8> for i8 {
    open spec fn extracted(req: Request<i8>, r: Self) -> bool {
        r == req.data
    }

    fn from_request(req: &Request<i8>) -> (r: Self) {
        req.data
    }
}

impl FromRequest<i32> for i32 {
    open spec fn extracted(req: Request<i32>, r: Self) -> bool {
        r == req.data
    }

    fn from_request(req: &Request<i32>) -> (r: Self) {
        req.data
    }
}

impl FromRequest<i64> for i64 {
    open spec fn extracted(req: Request<i64>, r: Self) -> bool {
        r == req.data
    }

    fn from_request(req: &Request<i64>) -> (r: Self) {
        req.data
    }
}

impl FromRequest<i128> for i128 {
    open spec fn extracted(req: Request<i128>, r: Self) -> bool {
        r == req.data
    }

    fn from_request(req: &Request<i128>) -> (r: Self) {
        req.data
    }
}

impl FromRequest<isize> for isize {
    open spec fn extracted(req: Request<isize>, r: Self) -> bool {
        r == req.data
    }

    fn from_request(req: &Request<isize>) -> (r: Self) {
        req.data
    }
}

impl FromRequest<u8> for u8 {
    open spec fn extracted(req: Request<u8>, r: Self) -> bool {
        r == req.data
    }

    fn from_request(req: &Request<u8>) -> (r: Self) {
        req.data
    }
}

impl FromRequest<u32> for u32 {
    open spec fn extracted(req: Request<u32>, r: Self) -> bool {
        r == req.data
    }

    fn from_request(req: &Request<u32>) -> (r: Self) {
        req.data
    }
}

impl FromRequest<u64> for u64 {
    open spec fn extracted(req: Request<u64>, r: Self) -> bool {
        r == req.data
    }

    fn from_request(req: &Request<u64>) -> (r: Self) {
        req.data
    }
}

impl FromRequest<u128> for u128 {
    open spec fn extracted(req: Request<u128>, r: Self) -> bool {
        r == req.data
    }

    fn from_request(req: &Request<u128>) -> (r: Self) {
        req.data
    }
}

impl FromRequest<usize> for usize {
    open spec fn extracted(req: Request<usize>, r: Self) -> bool {
        r == req.data
    }

    fn from_request(req: &Request<usize>) -> (r: Self) {
        req.data
    }
}

impl FromRequest<char> for char {
    open spec fn extracted(req: Request<char>, r: Self) -> bool {
        r == req.data
    }

    fn from_request(req: &Request<char>) -> (r: Self) {
        req.data
    }
}

impl FromRequest<bool> for bool {
    open spec fn extracted(req: Request<bool>, r: Self) -> bool {
        r == req.data
    }

    fn from_request(req: &Request<bool>) -> (r: Self) {
        req.data
    }
}

impl<T1> FromRequest<(T1,)> for (T1,) where
    T1: Copy,
 {
    open spec fn extracted(req: Request<(T1,)>, r: Self) -> bool {
        r == req.data
    }

    fn from_request(req: &Request<(T1,)>) -> (r: Self) {
        req.data
    }
}

impl<F, T1> Handler<(T1,)> for F where
    F: FnOnce(T1) + Copy,
    (T1,): FromRequest<(T1,)>,
 {
    open spec fn accepts(&self, req: Request<(T1,)>) -> bool {
        forall|data: (T1,)|
            <(T1,) as FromRequest<(T1,)>>::extracted(req, data) ==> #[trigger] self.requires(data)
    }

    open spec fn ran(&self, req: Request<(T1,)>) -> bool {
        exists|data: (T1,)|
            <(T1,) as FromRequest<(T1,)>>::extracted(req, data) && #[trigger] self.ensures(data, ())
    }

    fn call(&self, req: Request<(T1,)>) {
        let data: (T1,) = <(T1,) as FromRequest<(T1,)>>::from_request(&req);
        let f = *self;
        f(data.0);
        assert(self.ensures(data, ()));
    }
}

impl<T1, T2> FromRequest<(T1, T2)> for (T1, T2) where
    T1: Copy,
    T2: Copy,
 {
    open spec fn extracted(req: Request<(T1, T2)>, r: Self) -> bool {
        r == req.data
    }

    fn from_request(req: &Request<(T1, T2)>) -> (r: Self) {
        req.data
    }
}

impl<F, T1, T2> Handler<(T1, T2)> for F where
    F: FnOnce(T1, T2) + Copy,
    (T1, T2): FromRequest<(T1, T2)>,
 {
    open spec fn accepts(&self, req: Request<(T1, T2)>) -> bool {
        forall|data: (T1, T2)|
            <(T1, T2) as FromRequest<(T1, T2)>>::extracted(req, data) ==> #[trigger] self.requires(data)
    }

    open spec fn ran(&self, req: Request<(T1, T2)>) -> bool {
        exists|data: (T1, T2)|
            <(T1, T2) as FromRequest<(T1, T2)>>::extracted(req, data) && #[trigger] self.ensures(data, ())
    }

    fn call(&self, req: Request<(T1, T2)>) {
        let data: (T1, T2) = <(T1, T2) as FromRequest<(T1, T2)>>::from_request(&req);
        let f = *self;
        f(data.0, data.1);
        assert(self.ensures(data, ()));
    }
}

impl<T1, T2, T3> FromRequest<(T1, T2, T3)> for (T1, T2, T3) where
    T1: Copy,
    T2: Copy,
    T3: Copy,
 {
    open spec fn extracted(req: Request<(T1, T2, T3)>, r: Self) -> bool {
        r == req.data
    }

    fn from_request(req: &Request<(T1, T2, T3)>) -> (r: Self) {
        req.data
    }
}

impl<F, T1, T2, T3> Handler<(T1, T2, T3)> for F where
    F: FnOnce(T1, T2, T3) + Copy,
    (T1, T2, T3): FromRequest<(T1, T2, T3)>,
 {
    open spec fn accepts(&self, req: Request<(T1, T2, T3)>) -> bool {
        forall|data: (T1, T2, T3)|
            <(T1, T2, T3) as FromRequest<(T1, T2, T3)>>::extracted(req, data) ==> #[trigger] self.requires(data)
    }

    open spec fn ran(&self, req: Request<(T1, T2, T3)>) -> bool {
        exists|data: (T1, T2, T3)|
            <(T1, T2, T3) as FromRequest<(T1, T2, T3)>>::extracted(req, data) && #[trigger] self.ensures(data, ())
    }

    fn call(&self, req: Request<(T1, T2, T3)>) {
        let data: (T1, T2, T3) = <(T1, T2, T3) as FromRequest<(T1, T2, T3)>>::from_request(&req);
        let f = *self;
        f(data.0, data.1, data.2);
        assert(self.ensures(data, ()));
    }
}

impl<T1, T2, T3, T4> FromRequest<(T1, T2, T3, T4)> for (T1, T2, T3, T4) where
    T1: Copy,
    T2: Copy,
    T3: Copy,
    T4: Copy,
 {
    open spec fn extracted(req: Request<(T1, T2, T3, T4)>, r: Self) -> bool {
        r == req.data
    }

    fn from_request(req: &Request<(T1, T2, T3, T4)>) -> (r: Self) {
        req.data
    }
}

impl<F, T1, T2, T3, T4> Handler<(T1, T2, T3, T4)> for F where
    F: FnOnce(T1, T2, T3, T4) + Copy,
    (T1, T2, T3, T4): FromRequest<(T1, T2, T3, T4)>,
 {
    open spec fn accepts(&self, req: Request<(T1, T2, T3, T4)>) -> bool {
        forall|data: (T1, T2, T3, T4)|
            <(T1, T2, T3, T4) as FromRequest<(T1, T2, T3, T4)>>::extracted(req, data) ==> #[trigger] self.requires(data)
    }

    open spec fn ran(&self, req: Request<(T1, T2, T3, T4)>) -> bool {
        exists|data: (T1, T2, T3, T4)|
            <(T1, T2, T3, T4) as FromRequest<(T1, T2, T3, T4)>>::extracted(req, data) && #[trigger] self.ensures(data, ())
    }

    fn call(&self, req: Request<(T1, T2, T3, T4)>) {
        let data: (T1, T2, T3, T4) = <(T1, T2, T3, T4) as FromRequest<(T1, T2, T3, T4)>>::from_request(&req);
        let f = *self;
        f(data.0, data.1, data.2, data.3);
        assert(self.ensures(data, ()));
    }
}

impl<T1, T2, T3, T4, T5> FromRequest<(T1, T2, T3, T4, T5)> for (T1, T2, T3, T4, T5) where
    T1: Copy,
    T2: Copy,
    T3: Copy,
    T4: Copy,
    T5: Copy,
 {
    open spec fn extracted(req: Request<(T1, T2, T3, T4, T5)>, r: Self) -> bool {
        r == req.data
    }

    fn from_request(req: &Request<(T1, T2, T3, T4, T5)>) -> (r: Self) {
        req.data
    }
}

impl<F, T1, T2, T3, T4, T5> Handler<(T1, T2, T3, T4, T5)> for F where
    F: FnOnce(T1, T2, T3, T4, T5) + Copy,
    (T1, T2, T3, T4, T5): FromRequest<(T1, T2, T3, T4, T5)>,
 {
    open spec fn accepts(&self, req: Request<(T1, T2, T3, T4, T5)>) -> bool {
        forall|data: (T1, T2, T3, T4, T5)|
            <(T1, T2, T3, T4, T5) as FromRequest<(T1, T2, T3, T4, T5)>>::extracted(req, data) ==> #[trigger] self.requires(data)
    }

    open spec fn ran(&self, req: Request<(T1, T2, T3, T4, T5)>) -> bool {
        exists|data: (T1, T2, T3, T4, T5)|
            <(T1, T2, T3, T4, T5) as FromRequest<(T1, T2, T3, T4, T5)>>::extracted(req, data) && #[trigger] self.ensures(data, ())
    }

    fn call(&self, req: Request<(T1, T2, T3, T4, T5)>) {
        let data: (T1, T2, T3, T4, T5) = <(T1, T2, T3, T4, T5) as FromRequest<(T1, T2, T3, T4, T5)>>::from_request(&req);
        let f = *self;
        f(data.0, data.1, data.2, data.3, data.4);
        assert(self.ensures(data, ()));
    }
}

impl<T1, T2, T3, T4, T5, T6> FromRequest<(T1, T2, T3, T4, T5, T6)> for (T1, T2, T3, T4, T5, T6) where
    T1: Copy,
    T2: Copy,
    T3: Copy,
    T4: Copy,
    T5: Copy,
    T6: Copy,
 {
    open spec fn extracted(req: Request<(T1, T2, T3, T4, T5, T6)>, r: Self) -> bool {
        r == req.data
    }

    fn from_request(req: &Request<(T1, T2, T3, T4, T5, T6)>) -> (r: Self) {
        req.data
    }
}

impl<F, T1, T2, T3, T4, T5, T6> Handler<(T1, T2, T3, T4, T5, T6)> for F where
    F: FnOnce(T1, T2, T3, T4, T5, T6) + Copy,
    (T1, T2, T3, T4, T5, T6): FromRequest<(T1, T2, T3, T4, T5, T6)>,
 {
    open spec fn accepts(&self, req: Request<(T1, T2, T3, T4, T5, T6)>) -> bool {
        forall|data: (T1, T2, T3, T4, T5, T6)|
            <(T1, T2, T3, T4, T5, T6) as FromRequest<(T1, T2, T3, T4, T5, T6)>>::extracted(req, data) ==> #[trigger] self.requires(data)
    }

    open spec fn ran(&self, req: Request<(T1, T2, T3, T4, T5, T6)>) -> bool {
        exists|data: (T1, T2, T3, T4, T5, T6)|
            <(T1, T2, T3, T4, T5, T6) as FromRequest<(T1, T2, T3, T4, T5, T6)>>::extracted(req, data) && #[trigger] self.ensures(data, ())
    }

    fn call(&self, req: Request<(T1, T2, T3, T4, T5, T6)>) {
        let data: (T1, T2, T3, T4, T5, T6) = <(T1, T2, T3, T4, T5, T6) as FromRequest<(T1, T2, T3, T4, T5, T6)>>::from_request(&req);
        let f = *self;
        f(data.0, data.1, data.2, data.3, data.4, data.5);
        assert(self.ensures(data, ()));
    }
}

impl<T1, T2, T3, T4, T5, T6, T7> FromRequest<(T1, T2, T3, T4, T5, T6, T7)> for (T1, T2, T3, T4, T5, T6, T7) where
    T1: Copy,
    T2: Copy,
    T3: Copy,
    T4: Copy,
    T5: Copy,
    T6: Copy,
    T7: Copy,
 {
    open spec fn extracted(req: Request<(T1, T2, T3, T4, T5, T6, T7)>, r: Self) -> bool {
        r == req.data
    }

    fn from_request(req: &Request<(T1, T2, T3, T4, T5, T6, T7)>) -> (r: Self) {
        req.data
    }
}

impl<F, T1, T2, T3, T4, T5, T6, T7> Handler<(T1, T2, T3, T4, T5, T6, T7)> for F where
    F: FnOnce(T1, T2, T3, T4, T5, T6, T7) + Copy,
    (T1, T2, T3, T4, T5, T6, T7): FromRequest<(T1, T2, T3, T4, T5, T6, T7)>,
 {
    open spec fn accepts(&self, req: Request<(T1, T2, T3, T4, T5, T6, T7)>) -> bool {
        forall|data: (T1, T2, T3, T4, T5, T6, T7)|
            <(T1, T2, T3, T4, T5, T6, T7) as FromRequest<(T1, T2, T3, T4, T5, T6, T7)>>::extracted(req, data) ==> #[trigger] self.requires(data)
    }

    open spec fn ran(&self, req: Request<(T1, T2, T3, T4, T5, T6, T7)>) -> bool {
        exists|data: (T1, T2, T3, T4, T5, T6, T7)|
            <(T1, T2, T3, T4, T5, T6, T7) as FromRequest<(T1, T2, T3, T4, T5, T6, T7)>>::extracted(req, data) && #[trigger] self.ensures(data, ())
    }

    fn call(&self, req: Request<(T1, T2, T3, T4, T5, T6, T7)>) {
        let data: (T1, T2, T3, T4, T5, T6, T7) = <(T1, T2, T3, T4, T5, T6, T7) as FromRequest<(T1, T2, T3, T4, T5, T6, T7)>>::from_request(&req);
        let f = *self;
        f(data.0, data.1, data.2, data.3, data.4, data.5, data.6);
        assert(self.ensures(data, ()));
    }
}

impl<T1, T2, T3, T4, T5, T6, T7, T8> FromRequest<(T1, T2, T3, T4, T5, T6, T7, T8)> for (T1, T2, T3, T4, T5, T6, T7, T8) where
    T1: Copy,
    T2: Copy,
    T3: Copy,
    T4: Copy,
    T5: Copy,
    T6: Copy,
    T7: Copy,
    T8: Copy,
 {
    open spec fn extracted(req: Request<(T1, T2, T3, T4, T5, T6, T7, T8)>, r: Self) -> bool {
        r == req.data
    }

    fn from_request(req: &Request<(T1, T2, T3, T4, T5, T6, T7, T8)>) -> (r: Self) {
        req.data
    }
}

impl<F, T1, T2, T3, T4, T5, T6, T7, T8> Handler<(T1, T2, T3, T4, T5, T6, T7, T8)> for F where
    F: FnOnce(T1, T2, T3, T4, T5, T6, T7, T8) + Copy,
    (T1, T2, T3, T4, T5, T6, T7, T8): FromRequest<(T1, T2, T3, T4, T5, T6, T7, T8)>,
 {
    open spec fn accepts(&self, req: Request<(T1, T2, T3, T4, T5, T6, T7, T8)>) -> bool {
        forall|data: (T1, T2, T3, T4, T5, T6, T7, T8)|
            <(T1, T2, T3, T4, T5, T6, T7, T8) as FromRequest<(T1, T2, T3, T4, T5, T6, T7, T8)>>::extracted(req, data) ==> #[trigger] self.requires(data)
    }

    open spec fn ran(&self, req: Request<(T1, T2, T3, T4, T5, T6, T7, T8)>) -> bool {
        exists|data: (T1, T2, T3, T4, T5, T6, T7, T8)|
            <(T1, T2, T3, T4, T5, T6, T7, T8) as FromRequest<(T1, T2, T3, T4, T5, T6, T7, T8)>>::extracted(req, data) && #[trigger] self.ensures(data, ())
    }

    fn call(&self, req: Request<(T1, T2, T3, T4, T5, T6, T7, T8)>) {
        let data: (T1, T2, T3, T4, T5, T6, T7, T8) = <(T1, T2, T3, T4, T5, T6, T7, T8) as FromRequest<(T1, T2, T3, T4, T5, T6, T7, T8)>>::from_request(&req);
        let f = *self;
        f(data.0, data.1, data.2, data.3, data.4, data.5, data.6, data.7);
        assert(self.ensures(data, ()));
    }
}

} // verus!
