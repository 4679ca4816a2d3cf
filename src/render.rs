use vstd::prelude::*;

verus! {

/// The HTML being rendered.
#[derive(Debug)]
pub struct HtmlContext {
    buffer: String,
}

impl View for HtmlContext {
    type V = Seq<char>;

    closed spec fn view(&self) -> Seq<char> {
        self.buffer@
    }
}

impl HtmlContext {
    pub fn new() -> (r: HtmlContext)
        ensures
            r@ == Seq::<char>::empty(),
    {
        HtmlContext { buffer: String::new() }
    }

    /// The HTML rendered so far.
    pub fn buffer(&self) -> (r: &String)
        ensures
            r@ == self@,
    {
        &self.buffer
    }

    pub fn push_str(&mut self, text: &str)
        ensures
            final(self)@ == old(self)@ + text@,
    {
        self.buffer.append(text);
    }
}

/// Text of a citation of the bibliography entry `label`.
pub open spec fn bibcite_text(label: Seq<char>, brackets: bool) -> Seq<char> {
    if brackets {
        seq!['['] + label + seq![']']
    } else {
        label
    }
}

/// Renders a citation of the bibliography entry `label`, in square brackets if asked.
pub fn render_bibcite(ctx: &mut HtmlContext, label: &str, brackets: bool)
    ensures
        final(ctx)@ == old(ctx)@ + bibcite_text(label@, brackets),
{
    if brackets {
        let open = "[";
        let close = "]";
        proof {
            reveal_strlit("[");
            reveal_strlit("]");
        }
        ctx.push_str(open);
        ctx.push_str(label);
        ctx.push_str(close);
        assert(ctx@ == old(ctx)@ + bibcite_text(label@, brackets));
    } else {
        ctx.push_str(label);
    }
}

/// Renders the heading of a bibliography block: its title, or "Bibliography".
pub fn render_bibliography(ctx: &mut HtmlContext, title: Option<&str>)
    ensures
        final(ctx)@ == old(ctx)@ + match title {
            Some(t) => t@,
            None => "Bibliography"@,
        },
{
    match title {
        Some(t) => ctx.push_str(t),
        None => ctx.push_str("Bibliography"),
    }
}

} // verus!
