//! Requests to render a named template with string variables, and handing
//! them to a renderer: in the running server, Tera over the loaded templates.
use vstd::prelude::*;
use vstd::string::*;

verus! {

#[verifier::external_type_specification]
#[verifier::external_body]
pub struct ExContext(tera::Context);

/// The string variables that a Tera context holds, by name.
pub uninterp spec fn context_strings(ctx: tera::Context) -> Map<Seq<char>, Seq<char>>;

/// Relies on tera::Context::new: a new context holds no variables.
#[verifier::external_body]
fn new_context() -> (r: tera::Context)
    ensures
        context_strings(r).dom() == Set::<Seq<char>>::empty(),
{
    tera::Context::new()
}

/// Relies on tera::Context::insert: the name now holds the string, in place
/// of whatever it held before; the other variables stay.
#[verifier::external_body]
fn insert_string(ctx: &mut tera::Context, name: &str, value: &str)
    ensures
        context_strings(*final(ctx)) == context_strings(*old(ctx)).insert(name@, value@),
{
    ctx.insert(name, value)
}

/// A template that could not be rendered, with the reason for the log.
pub struct RenderFailure {
    pub detail: String,
}

/// The suffix that names a page's template file.
pub open spec fn template_suffix() -> Seq<char> {
    seq!['.', 'h', 't', 'm', 'l', '.', 't', 'e', 'r', 'a']
}

/// The template file of the page called `name`.
pub open spec fn template_file(name: Seq<char>) -> Seq<char> {
    name + template_suffix()
}

/// The variables that a list of pairs sets, a later pair overriding an
/// earlier one with the same name.
pub open spec fn vars_map(vars: Seq<(&str, &str)>) -> Map<Seq<char>, Seq<char>>
    decreases vars.len(),
{
    if vars.len() == 0 {
        Map::empty()
    } else {
        vars_map(vars.drop_last()).insert(vars.last().0@, vars.last().1@)
    }
}

/// With distinct names, the variables are exactly the pairs, whatever
/// their order: each name holds its own value, and no other name is set.
pub proof fn lemma_vars_map_distinct(vars: Seq<(&str, &str)>)
    requires
        forall|i: int, j: int|
            0 <= i < j < vars.len() ==> (#[trigger] vars[i]).0@ != (#[trigger] vars[j]).0@,
    ensures
        forall|i: int|
            0 <= i < vars.len() ==> #[trigger] vars_map(vars).contains_key(vars[i].0@)
                && vars_map(vars)[vars[i].0@] == vars[i].1@,
        forall|k: Seq<char>|
            #[trigger] vars_map(vars).contains_key(k) ==> exists|i: int|
                0 <= i < vars.len() && (#[trigger] vars[i]).0@ == k,
    decreases vars.len(),
{
    if vars.len() > 0 {
        let init = vars.drop_last();
        assert forall|i: int, j: int| 0 <= i < j < init.len() implies (#[trigger] init[i]).0@ != (
        #[trigger] init[j]).0@ by {
            assert(init[i] == vars[i] && init[j] == vars[j]);
        }
        lemma_vars_map_distinct(init);
        assert forall|i: int| 0 <= i < vars.len() implies #[trigger] vars_map(vars).contains_key(
            vars[i].0@,
        ) && vars_map(vars)[vars[i].0@] == vars[i].1@ by {
            if i < vars.len() - 1 {
                assert(init[i] == vars[i]);
                assert(vars_map(init).contains_key(init[i].0@));
                assert(vars[i].0@ != vars[vars.len() - 1].0@);
            }
        }
        assert forall|k: Seq<char>| #[trigger] vars_map(vars).contains_key(k) implies exists|i: int|
            0 <= i < vars.len() && (#[trigger] vars[i]).0@ == k by {
            if k == vars.last().0@ {
                assert(vars[vars.len() - 1].0@ == k);
            } else {
                assert(vars_map(init).contains_key(k));
                let i = choose|i: int| 0 <= i < init.len() && (#[trigger] init[i]).0@ == k;
                assert(vars[i] == init[i]);
            }
        }
    }
}

pub fn template_file_name(name: &str) -> (r: String)
    ensures
        r@ == template_file(name@),
{
    proof {
        reveal_strlit(".html.tera");
    }
    let mut file = name.to_owned();
    file.append(".html.tera");
    file
}

/// A context that holds exactly the given variables.
pub fn build_context(vars: &[(&str, &str)]) -> (r: tera::Context)
    ensures
        context_strings(r) == vars_map(vars@),
{
    let mut ctx = new_context();
    let n = vars.len();
    let mut i: usize = 0;
    while i < n
        invariant
            n == vars@.len(),
            i <= n,
            context_strings(ctx) == vars_map(vars@.take(i as int)),
        decreases n - i,
    {
        proof {
            assert(vars@.take(i + 1).drop_last() =~= vars@.take(i as int));
        }
        let (name, value) = vars[i];
        insert_string(&mut ctx, name, value);
        i = i + 1;
    }
    proof {
        assert(vars@.take(n as int) =~= vars@);
    }
    ctx
}

/// What a renderer is asked for: a template file of the set, and the
/// variables to render it with.
pub struct RenderRequest {
    pub template: String,
    pub context: tera::Context,
}

/// `req` asks for the template file `template` with exactly the variables
/// `vars`.
pub open spec fn asks_for(
    req: RenderRequest,
    template: Seq<char>,
    vars: Map<Seq<char>, Seq<char>>,
) -> bool {
    req.template@ == template && context_strings(req.context) == vars
}

/// The request for the template file `file` with the given variables.
pub fn render_request(file: &str, vars: &[(&str, &str)]) -> (r: RenderRequest)
    ensures
        asks_for(r, file@, vars_map(vars@)),
{
    RenderRequest { template: file.to_owned(), context: build_context(vars) }
}

/// Renders a template by its file name with the given variables: the
/// result is what `render` gives for exactly that request.
pub fn render_file<F: Fn(RenderRequest) -> Result<String, RenderFailure>>(
    render: F,
    file: &str,
    vars: &[(&str, &str)],
) -> (r: Result<String, RenderFailure>)
    requires
        forall|req: RenderRequest| #[trigger] render.requires((req,)),
    ensures
        exists|req: RenderRequest|
            asks_for(req, file@, vars_map(vars@)) && #[trigger] render.ensures((req,), r),
{
    let req = render_request(file, vars);
    let ghost asked = req;
    let r = render(req);
    assert(asks_for(asked, file@, vars_map(vars@)) && render.ensures((asked,), r));
    r
}

/// Renders the template of the page called `name`, its file being `name`
/// followed by ".html.tera", with the given variables: the result is what
/// `render` gives for exactly that request.
pub fn render_template_with_vars<F: Fn(RenderRequest) -> Result<String, RenderFailure>>(
    render: F,
    name: &str,
    vars: &[(&str, &str)],
) -> (r: Result<String, RenderFailure>)
    requires
        forall|req: RenderRequest| #[trigger] render.requires((req,)),
    ensures
        exists|req: RenderRequest|
            asks_for(req, template_file(name@), vars_map(vars@)) && #[trigger] render.ensures(
                (req,),
                r,
            ),
{
    let file = template_file_name(name);
    render_file(render, file.as_str(), vars)
}

} // verus!
