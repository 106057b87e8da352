use vstd::prelude::*;

verus! {

/// What `template` renders to when the placeholder `{{key}}` is bound to
/// `value`. It depends on the three texts alone.
pub uninterp spec fn rendered(template: Seq<char>, key: Seq<char>, value: Seq<char>) -> Seq<char>;

/// Whether `s` holds two adjacent opening braces, the start of any placeholder.
pub open spec fn has_double_brace(s: Seq<char>) -> bool {
    exists|i: int| 0 <= i && i + 1 < s.len() && s[i] == '{' && #[trigger] s[i + 1] == '{'
}

/// Relies on `string_template::Template::new` and `Template::render`: every
/// `{{key}}` in `template` is replaced by `value`; a template with no `{{`
/// holds no placeholder and renders as itself.
#[verifier::external_body]
pub(crate) fn render_template(template: &str, key: &str, value: &str) -> (r: String)
    ensures
        r@ == rendered(template@, key@, value@),
        !has_double_brace(template@) ==> r@ == template@,
{
    let mut bindings = std::collections::HashMap::new();
    bindings.insert(key, value);
    string_template::Template::new(template).render(&bindings)
}

} // verus!
