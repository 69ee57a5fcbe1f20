//! The `#[controller]` attribute: which methods of an impl block become
//! handlers, and under which paths, HTTP methods, tags, security requirements
//! and middleware each one is registered.

use vstd::prelude::*;
use crate::attr::Attr;
use crate::docs::{description_of, extract_summary_and_description, summary_and_description};
use crate::method::{all_methods, every_method, Method};

verus! {

/// A path a controller or handler is mounted at: one written in its
/// attribute, or the empty path when none is written.
pub enum RoutePath<P> {
    Given(P),
    Root,
}

/// What `#[controller(...)]` says, each item carried as the caller gave it.
pub struct ControllerAttr<P, M, T, S> {
    pub paths: Vec<P>,
    pub middleware: Option<M>,
    pub tags: Vec<T>,
    pub security: Vec<S>,
}

/// What `#[handler(...)]` on a method says.
pub struct HandlerAttr<P, M, T, S> {
    pub paths: Vec<P>,
    pub methods: Vec<Method>,
    pub middleware: Option<M>,
    pub tags: Vec<T>,
    pub security: Vec<S>,
}

/// The first parameter of a method.
#[derive(Clone, Copy, Debug, PartialEq, Eq, Structural)]
pub enum FirstParam {
    /// A `self` receiver: by reference or not, mutable or not, with an
    /// explicit type (`self: T`) or not.
    Receiver { by_ref: bool, mutable: bool, typed: bool },
    /// An ordinary parameter.
    Typed,
    /// The method has no parameters.
    Nothing,
}

/// The signature of a method, as far as the controller reads it.
pub struct HandlerSig<A> {
    pub is_async: bool,
    pub first: FirstParam,
    /// The types of the parameters after the first.
    pub args: Vec<A>,
}

/// Why a method marked as a handler is refused.
#[derive(Clone, Copy, Debug, PartialEq, Eq, Structural)]
pub enum HandlerError {
    /// The method is not `async`.
    NotAsync,
    /// The first parameter is not `&self`.
    FirstNotRefSelf,
}

/// One registration of a handler: the controller path and the handler path
/// (by their positions) that are joined, and the HTTP method.
pub type Route = (usize, usize, Method);

/// Everything a handler is registered with.
pub struct HandlerPlan<P, M, T, S, A> {
    /// The handler's own paths (the root path when none is written).
    pub paths: Vec<RoutePath<P>>,
    /// The HTTP methods it answers (every method when none is written).
    pub methods: Vec<Method>,
    /// Every registration, controller path outermost, method innermost.
    pub routes: Vec<Route>,
    /// The parameters extracted from the request head.
    pub head_args: Vec<A>,
    /// The last parameter, extracted from the whole request.
    pub last_arg: Option<A>,
    pub summary: String,
    pub description: String,
    /// The handler's own tags, added after the controller's.
    pub tags: Vec<T>,
    /// Whether the handler's own security requirements replace the
    /// controller's (they do when it has any).
    pub own_security: bool,
    pub security: Vec<S>,
    /// The handler's own middleware, applied before the controller's.
    pub middleware: Option<M>,
}

/// The registrations of one controller path and one handler path, one per method.
pub open spec fn routes_for(a: int, b: int, methods: Seq<Method>) -> Seq<Route> {
    methods.map_values(|m: Method| (a as usize, b as usize, m))
}

/// The registrations of controller path `a` with the first `nm` handler paths.
pub open spec fn routes_row(a: int, nm: int, methods: Seq<Method>) -> Seq<Route>
    decreases nm,
{
    if nm <= 0 {
        Seq::empty()
    } else {
        routes_row(a, nm - 1, methods) + routes_for(a, nm - 1, methods)
    }
}

/// The registrations of the first `nc` controller paths with `nm` handler paths.
pub open spec fn all_routes(nc: int, nm: int, methods: Seq<Method>) -> Seq<Route>
    decreases nc,
{
    if nc <= 0 {
        Seq::empty()
    } else {
        all_routes(nc - 1, nm, methods) + routes_row(nc - 1, nm, methods)
    }
}

/// The methods a handler answers: those written, or every method.
pub open spec fn handler_methods(written: Seq<Method>) -> Seq<Method> {
    if written.len() == 0 {
        every_method()
    } else {
        written
    }
}

/// The number of paths a handler or controller is mounted at.
pub open spec fn path_count(written: nat) -> nat {
    if written == 0 {
        1
    } else {
        written
    }
}

/// Whether the first parameter is `&self`.
pub open spec fn is_ref_self(first: FirstParam) -> bool {
    first == FirstParam::Receiver { by_ref: true, mutable: false, typed: false }
}

/// The paths a handler or controller is mounted at: those written, or the
/// root path.
pub fn mount_paths<P>(written: Vec<P>) -> (paths: Vec<RoutePath<P>>)
    ensures
        paths@.len() == path_count(written@.len()),
        written@.len() == 0 ==> paths@[0] is Root,
        forall|i: int| 0 <= i < written@.len() ==> (#[trigger] paths@[i]) == RoutePath::Given(written@[i]),
{
    let mut paths: Vec<RoutePath<P>> = Vec::new();
    if written.len() == 0 {
        paths.push(RoutePath::Root);
        return paths;
    }
    let ghost orig = written@;
    let n = written.len();
    let mut rest = written;
    let mut i: usize = 0;
    while i < n
        invariant
            n == orig.len(),
            i <= n,
            rest@ == orig.skip(i as int),
            paths@.len() == i,
            forall|k: int| 0 <= k < i ==> (#[trigger] paths@[k]) == RoutePath::Given(orig[k]),
        decreases n - i,
    {
        let p = rest.remove(0);
        paths.push(RoutePath::Given(p));
        i = i + 1;
        assert(rest@ =~= orig.skip(i as int));
    }
    paths
}

/// Every registration of a handler: each controller path joined with each
/// handler path, for each method.
pub fn plan_routes(nc: usize, nm: usize, methods: &Vec<Method>) -> (routes: Vec<Route>)
    ensures
        routes@ == all_routes(nc as int, nm as int, methods@),
{
    let mut routes: Vec<Route> = Vec::new();
    let mut a: usize = 0;
    while a < nc
        invariant
            a <= nc,
            routes@ == all_routes(a as int, nm as int, methods@),
        decreases nc - a,
    {
        let ghost before = routes@;
        let mut b: usize = 0;
        while b < nm
            invariant
                a < nc,
                b <= nm,
                before == all_routes(a as int, nm as int, methods@),
                routes@ == before + routes_row(a as int, b as int, methods@),
            decreases nm - b,
        {
            let ghost row_before = routes@;
            let mut c: usize = 0;
            while c < methods.len()
                invariant
                    c <= methods.len(),
                    routes@ == row_before + routes_for(a as int, b as int, methods@.take(c as int)),
                decreases methods.len() - c,
            {
                routes.push((a, b, methods[c]));
                c = c + 1;
                assert(routes_for(a as int, b as int, methods@.take(c as int)) =~= routes_for(a as int, b as int, methods@.take(c - 1)).push((a, b, methods@[c - 1])));
                assert(routes@ =~= row_before + routes_for(a as int, b as int, methods@.take(c as int)));
            }
            assert(methods@.take(methods.len() as int) =~= methods@);
            b = b + 1;
            assert(routes@ =~= before + routes_row(a as int, b as int, methods@));
        }
        a = a + 1;
        assert(routes@ =~= all_routes(a as int, nm as int, methods@));
    }
    routes
}

/// Every registration of a handler pairs a controller path with a handler
/// path and one of its methods, and every such pairing is registered.
pub proof fn lemma_routes_cover(nc: int, nm: int, methods: Seq<Method>)
    requires
        0 <= nc <= usize::MAX,
        0 <= nm <= usize::MAX,
    ensures
        forall|r: Route| all_routes(nc, nm, methods).contains(r) <==>
            (r.0 < nc && r.1 < nm && methods.contains(r.2)),
    decreases nc,
{
    if nc > 0 {
        lemma_routes_cover(nc - 1, nm, methods);
        lemma_row_cover(nc - 1, nm, methods);
        assert forall|r: Route| all_routes(nc, nm, methods).contains(r) <==>
            (r.0 < nc && r.1 < nm && methods.contains(r.2)) by {
            let left = all_routes(nc - 1, nm, methods);
            let right = routes_row(nc - 1, nm, methods);
            if all_routes(nc, nm, methods).contains(r) {
                let i = choose|i: int| 0 <= i < (left + right).len() && (left + right)[i] == r;
                if i < left.len() {
                    assert(left.contains(r));
                } else {
                    assert(right[i - left.len()] == r);
                    assert(right.contains(r));
                }
            }
            if r.0 < nc && r.1 < nm && methods.contains(r.2) {
                if r.0 < nc - 1 {
                    assert(left.contains(r));
                    let i = choose|i: int| 0 <= i < left.len() && left[i] == r;
                    assert((left + right)[i] == r);
                } else {
                    assert(right.contains(r));
                    let i = choose|i: int| 0 <= i < right.len() && right[i] == r;
                    assert((left + right)[left.len() + i] == r);
                }
            }
        }
    }
}

proof fn lemma_row_cover(a: int, nm: int, methods: Seq<Method>)
    requires
        0 <= a <= usize::MAX,
        0 <= nm <= usize::MAX,
    ensures
        forall|r: Route| routes_row(a, nm, methods).contains(r) <==>
            (r.0 == a && r.1 < nm && methods.contains(r.2)),
    decreases nm,
{
    if nm > 0 {
        lemma_row_cover(a, nm - 1, methods);
        assert forall|r: Route| routes_row(a, nm, methods).contains(r) <==>
            (r.0 == a && r.1 < nm && methods.contains(r.2)) by {
            let left = routes_row(a, nm - 1, methods);
            let right = routes_for(a, nm - 1, methods);
            if routes_row(a, nm, methods).contains(r) {
                let i = choose|i: int| 0 <= i < (left + right).len() && (left + right)[i] == r;
                if i < left.len() {
                    assert(left.contains(r));
                } else {
                    assert(right[i - left.len()] == r);
                    assert(methods[i - left.len()] == r.2);
                }
            }
            if r.0 == a && r.1 < nm && methods.contains(r.2) {
                if r.1 < nm - 1 {
                    assert(left.contains(r));
                    let i = choose|i: int| 0 <= i < left.len() && left[i] == r;
                    assert((left + right)[i] == r);
                } else {
                    let j = choose|j: int| 0 <= j < methods.len() && methods[j] == r.2;
                    assert(right[j] == r);
                    assert((left + right)[left.len() + j] == r);
                }
            }
        }
    }
}

/// The handler parameters: all but the last come from the request head, the
/// last from the whole request.
pub open spec fn split_args<A>(args: Seq<A>) -> (Seq<A>, Option<A>) {
    if args.len() == 0 {
        (args, None)
    } else {
        (args.drop_last(), Some(args.last()))
    }
}

/// Why a method with this signature cannot be a handler, if it cannot: it
/// must be `async` and take `&self` first.
pub open spec fn handler_error<A>(sig: HandlerSig<A>) -> Option<HandlerError> {
    if !sig.is_async {
        Some(HandlerError::NotAsync)
    } else if !is_ref_self(sig.first) {
        Some(HandlerError::FirstNotRefSelf)
    } else {
        None
    }
}

/// Only a method that is `async` and takes exactly `&self` first can be a
/// handler: one that is not `async` is refused as such, and one whose first
/// parameter is anything else (`&mut self`, `self`, a typed receiver, an
/// ordinary parameter, or none) is refused for its first parameter.
pub proof fn lemma_handlers_take_ref_self<A>(sig: HandlerSig<A>)
    ensures
        handler_error(sig) is None <==> sig.is_async && sig.first == (FirstParam::Receiver { by_ref: true, mutable: false, typed: false }),
        !sig.is_async ==> handler_error(sig) == Some(HandlerError::NotAsync),
        sig.is_async && sig.first != (FirstParam::Receiver { by_ref: true, mutable: false, typed: false })
            ==> handler_error(sig) == Some(HandlerError::FirstNotRefSelf),
        sig.is_async && sig.first == (FirstParam::Receiver { by_ref: true, mutable: true, typed: false })
            ==> handler_error(sig) == Some(HandlerError::FirstNotRefSelf),
{
}

/// Whether `plan` is the plan of a handler with these doc attributes,
/// signature and attribute, under `controller_paths` controller paths.
pub open spec fn handler_plan_ok<P, M, T, S, A>(
    plan: HandlerPlan<P, M, T, S, A>,
    controller_paths: usize,
    docs: Seq<Attr>,
    sig: HandlerSig<A>,
    attr: HandlerAttr<P, M, T, S>,
) -> bool {
    &&& sig.is_async && is_ref_self(sig.first)
    &&& plan.paths@.len() == path_count(attr.paths@.len())
    &&& attr.paths@.len() == 0 ==> plan.paths@[0] is Root
    &&& forall|i: int| 0 <= i < attr.paths@.len() ==> (#[trigger] plan.paths@[i]) == RoutePath::Given(attr.paths@[i])
    &&& plan.methods@ == handler_methods(attr.methods@)
    &&& plan.routes@ == all_routes(controller_paths as int, plan.paths@.len() as int, plan.methods@)
    &&& (plan.head_args@, plan.last_arg) == split_args(sig.args@)
    &&& description_of(docs).len() == 0 ==> plan.summary@.len() == 0 && plan.description@.len() == 0
    &&& description_of(docs).len() > 0 ==> {
        &&& plan.summary@ == summary_and_description(description_of(docs)).0
        &&& plan.description@ == summary_and_description(description_of(docs)).1
    }
    &&& plan.tags@ == attr.tags@
    &&& plan.own_security == (attr.security@.len() > 0)
    &&& plan.security@ == attr.security@
    &&& plan.middleware == attr.middleware
}

/// Plans a handler: refused unless it is `async` and takes `&self` first;
/// otherwise registered under its paths (or the root) for its methods (or
/// every method), under every controller path.
pub fn plan_handler<P, M, T, S, A>(
    controller_paths: usize,
    docs: &Vec<Attr>,
    sig: HandlerSig<A>,
    attr: HandlerAttr<P, M, T, S>,
) -> (r: Result<HandlerPlan<P, M, T, S, A>, HandlerError>)
    ensures
        match handler_error(sig) {
            Some(e) => r == Err::<HandlerPlan<P, M, T, S, A>, HandlerError>(e),
            None => r is Ok,
        },
        r is Ok <==> sig.is_async && sig.first == (FirstParam::Receiver { by_ref: true, mutable: false, typed: false }),
        !sig.is_async ==> r == Err::<HandlerPlan<P, M, T, S, A>, HandlerError>(HandlerError::NotAsync),
        sig.is_async && sig.first != (FirstParam::Receiver { by_ref: true, mutable: false, typed: false })
            ==> r == Err::<HandlerPlan<P, M, T, S, A>, HandlerError>(HandlerError::FirstNotRefSelf),
        r matches Ok(plan) ==> handler_plan_ok(plan, controller_paths, docs@, sig, attr),
{
    if !sig.is_async {
        return Err(HandlerError::NotAsync);
    }
    match sig.first {
        FirstParam::Receiver { by_ref: true, mutable: false, typed: false } => {},
        _ => {
            return Err(HandlerError::FirstNotRefSelf);
        },
    }
    let HandlerAttr { paths, methods, middleware, tags, security } = attr;
    let paths = mount_paths(paths);
    let methods = if methods.len() == 0 {
        all_methods()
    } else {
        methods
    };
    let routes = plan_routes(controller_paths, paths.len(), &methods);
    let mut head_args = sig.args;
    let ghost all_args = head_args@;
    let last_arg = head_args.pop();
    proof {
        if all_args.len() > 0 {
            assert(head_args@ =~= all_args.drop_last());
        }
    }
    let (summary, description) = extract_summary_and_description(docs);
    let own_security = security.len() > 0;
    Ok(HandlerPlan {
        paths,
        methods,
        routes,
        head_args,
        last_arg,
        summary,
        description,
        tags,
        own_security,
        security,
        middleware,
    })
}

/// The security requirements a handler's operation is documented with: its
/// own when it has any (they replace the controller's, never add to them),
/// else the controller's, and none at all when both lists are empty.
pub fn handler_security<'a, S>(own: &'a Vec<S>, controller: &'a Vec<S>) -> (r: Option<&'a Vec<S>>)
    ensures
        r == (if own@.len() > 0 {
            Some(own)
        } else if controller@.len() > 0 {
            Some(controller)
        } else {
            None::<&Vec<S>>
        }),
{
    if own.len() > 0 {
        Some(own)
    } else if controller.len() > 0 {
        Some(controller)
    } else {
        None
    }
}

/// What the controller found on a method of the impl block.
pub enum ImplFn<P, M, T, S, A, E> {
    /// A method marked `#[handler(...)]`, with its doc attributes and signature.
    Handler { docs: Vec<Attr>, sig: HandlerSig<A>, attr: HandlerAttr<P, M, T, S> },
    /// A method whose `#[handler(...)]` attribute could not be read.
    BadAttr(E),
    /// A method without `#[handler(...)]`, or another item.
    Other,
}

/// Why the controller refuses an impl block, or one of its methods (by its
/// position).
pub enum ControllerError<E> {
    /// The impl block implements a trait.
    TraitImpl,
    Attr(usize, E),
    Handler(usize, HandlerError),
}

/// The plans of the handlers of a controller, in the order of its methods, or
/// every reason it is refused.
pub fn plan_controller<P, M, T, S, A, E>(
    is_trait_impl: bool,
    attr: ControllerAttr<P, M, T, S>,
    items: Vec<ImplFn<P, M, T, S, A, E>>,
) -> (r: Result<(ControllerAttr<RoutePath<P>, M, T, S>, Vec<HandlerPlan<P, M, T, S, A>>), Vec<ControllerError<E>>>)
    ensures
        is_trait_impl ==> (r matches Err(es) && es@.len() == 1 && es@[0] is TraitImpl),
        r matches Ok((c, plans)) ==> {
            &&& !is_trait_impl
            &&& c.paths@.len() == path_count(attr.paths@.len())
            &&& attr.paths@.len() == 0 ==> c.paths@[0] is Root
            &&& forall|i: int| 0 <= i < attr.paths@.len() ==> (#[trigger] c.paths@[i]) == RoutePath::Given(attr.paths@[i])
            &&& c.middleware == attr.middleware
            &&& c.tags@ == attr.tags@
            &&& c.security@ == attr.security@
            &&& plans@.len() == count_handlers(items@)
            &&& forall|k: int| 0 <= k < plans@.len() ==> planned_from(#[trigger] plans@[k], k, items@, c.paths@.len())
        },
        !is_trait_impl ==> match r {
            Ok(_) => controller_errors(items@, items@.len() as int).len() == 0,
            Err(es) => es@ == controller_errors(items@, items@.len() as int) && es@.len() > 0,
        },
{
    if is_trait_impl {
        let mut es: Vec<ControllerError<E>> = Vec::new();
        es.push(ControllerError::TraitImpl);
        return Err(es);
    }
    let ControllerAttr { paths, middleware, tags, security } = attr;
    let paths = mount_paths(paths);
    let nc = paths.len();
    let mut plans: Vec<HandlerPlan<P, M, T, S, A>> = Vec::new();
    let mut errors: Vec<ControllerError<E>> = Vec::new();
    let ghost orig = items@;
    let n = items.len();
    let mut rest = items;
    let mut i: usize = 0;
    while i < n
        invariant
            n == orig.len(),
            i <= n,
            rest@ == orig.skip(i as int),
            nc == paths@.len(),
            errors@ == controller_errors(orig, i as int),
            errors@.len() == 0 ==> plans@.len() == count_handlers(orig.take(i as int)),
            errors@.len() == 0 ==> forall|k: int| 0 <= k < plans@.len() ==> planned_from(#[trigger] plans@[k], k, orig, nc as nat),
        decreases n - i,
    {
        let item = rest.remove(0);
        assert(orig.take(i + 1).drop_last() =~= orig.take(i as int));
        assert(item == orig[i as int]);
        match item {
            ImplFn::Handler { docs, sig, attr } => {
                let ghost (d0, s0, a0) = (docs@, sig, attr);
                match plan_handler(nc, &docs, sig, attr) {
                    Ok(plan) => {
                        let ghost k = plans@.len() as int;
                        plans.push(plan);
                        proof {
                            if errors@.len() == 0 {
                                assert(orig.take(i as int) =~= orig.take(i + 1).drop_last());
                                assert(planned_from(plans@[k], k, orig, nc as nat)) by {
                                    assert(orig[i as int] matches ImplFn::Handler { docs, sig, attr }
                                        && handler_plan_ok(plans@[k], nc, docs@, sig, attr));
                                }
                            }
                        }
                    },
                    Err(e) => {
                        errors.push(ControllerError::Handler(i, e));
                    },
                }
            },
            ImplFn::BadAttr(e) => {
                errors.push(ControllerError::Attr(i, e));
            },
            ImplFn::Other => {},
        }
        i = i + 1;
        assert(rest@ =~= orig.skip(i as int));
    }
    assert(orig.take(n as int) =~= orig);
    if errors.len() > 0 {
        return Err(errors);
    }
    Ok((ControllerAttr { paths, middleware, tags, security }, plans))
}

/// The errors of the first `n` items of an impl block, in order: methods
/// whose handler attribute could not be read, and handlers whose signature
/// is refused.
pub open spec fn controller_errors<P, M, T, S, A, E>(items: Seq<ImplFn<P, M, T, S, A, E>>, n: int) -> Seq<ControllerError<E>>
    decreases n,
{
    if n <= 0 {
        Seq::empty()
    } else {
        let before = controller_errors(items, n - 1);
        match items[n - 1] {
            ImplFn::Handler { sig, .. } => match handler_error(sig) {
                Some(e) => before.push(ControllerError::Handler((n - 1) as usize, e)),
                None => before,
            },
            ImplFn::BadAttr(e) => before.push(ControllerError::Attr((n - 1) as usize, e)),
            ImplFn::Other => before,
        }
    }
}

/// Whether `plan` is the plan of the `k`-th handler among `items`, under
/// `nc` controller paths.
pub open spec fn planned_from<P, M, T, S, A, E>(
    plan: HandlerPlan<P, M, T, S, A>,
    k: int,
    items: Seq<ImplFn<P, M, T, S, A, E>>,
    nc: nat,
) -> bool {
    exists|j: int| {
        &&& 0 <= j < items.len()
        &&& count_handlers(#[trigger] items.take(j)) == k
        &&& items[j] matches ImplFn::Handler { docs, sig, attr }
        &&& handler_plan_ok(plan, nc as usize, docs@, sig, attr)
    }
}

/// The number of methods marked as handlers.
pub open spec fn count_handlers<P, M, T, S, A, E>(items: Seq<ImplFn<P, M, T, S, A, E>>) -> nat
    decreases items.len(),
{
    if items.len() == 0 {
        0
    } else {
        count_handlers(items.drop_last()) + if items.last() is Handler { 1nat } else { 0nat }
    }
}

} // verus!
