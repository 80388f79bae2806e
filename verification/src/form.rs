//! A form with a controlled and an uncontrolled text input.
//!
//! The controlled input shows what the form holds: each keystroke is written
//! into the form before anything is drawn again, so the text on display and
//! the text in the form are one.  The uncontrolled input keeps its text to
//! itself.  The form learns of it only when the form is submitted, by asking
//! the input element through a reference that is empty until the element
//! exists.

use vstd::prelude::*;

verus! {

/// What a form holds: the text of the controlled input and the text that was
/// last submitted from the uncontrolled one.
#[verifier::ext_equal]
pub struct FormModel {
    pub name: Seq<char>,
    pub submitted: Seq<char>,
}

impl FormModel {
    /// A form that nobody has typed into.
    pub open spec fn initial() -> FormModel {
        FormModel { name: "Controlled"@, submitted: "Uncontrolled"@ }
    }

    /// The form after a keystroke that left `text` in the controlled input.
    pub open spec fn input(self, text: Seq<char>) -> FormModel {
        FormModel { name: text, submitted: self.submitted }
    }

    /// The form after a run of keystrokes, each of which left one of `texts`
    /// in the controlled input, first to last.
    pub open spec fn typed(self, texts: Seq<Seq<char>>) -> FormModel
        decreases texts.len(),
    {
        if texts.len() == 0 {
            self
        } else {
            self.typed(texts.drop_last()).input(texts.last())
        }
    }

    /// The form after a submission that found `element` behind the
    /// reference to the uncontrolled input: its text where the element
    /// exists, nothing where it does not.
    pub open spec fn submit(self, element: Option<Seq<char>>) -> FormModel {
        match element {
            Some(text) => FormModel { name: self.name, submitted: text },
            None => self,
        }
    }
}

/// What typing `text` leaves in an input element: the text, if the element
/// exists.
pub open spec fn typed_into(element: Option<Seq<char>>, text: Seq<char>) -> Option<Seq<char>> {
    match element {
        Some(_) => Some(text),
        None => None,
    }
}

/// The controlled input never lags: after any run of keystrokes it shows
/// the text that the last of them left, and a form that saw none shows what
/// it showed.  Keystrokes do not touch the submitted text.
pub proof fn lemma_typed_shows_last(form: FormModel, texts: Seq<Seq<char>>)
    ensures
        texts.len() > 0 ==> form.typed(texts).name == texts.last(),
        texts.len() == 0 ==> form.typed(texts).name == form.name,
        form.typed(texts).submitted == form.submitted,
    decreases texts.len(),
{
    if texts.len() > 0 {
        lemma_typed_shows_last(form, texts.drop_last());
    }
}

/// Typing into the uncontrolled input changes the element and nothing in
/// the form; a submission after it puts exactly the typed text into the
/// form and leaves the controlled text alone.
pub proof fn lemma_typed_then_submitted(
    form: FormModel,
    element: Option<Seq<char>>,
    text: Seq<char>,
)
    requires
        element.is_some(),
    ensures
        form.submit(typed_into(element, text)).submitted == text,
        form.submit(typed_into(element, text)).name == form.name,
{
}

/// A reference to the uncontrolled input element.
///
/// It is empty until the element exists and holds the element's text from
/// then on.  It is bound once: an element that is there stays.
pub struct NodeRef {
    element: Option<String>,
}

impl View for NodeRef {
    type V = Option<Seq<char>>;

    closed spec fn view(&self) -> Option<Seq<char>> {
        match self.element {
            Some(text) => Some(text@),
            None => None,
        }
    }
}

impl NodeRef {
    /// A reference to an element that does not exist yet.
    pub fn new() -> (node: NodeRef)
        ensures
            node@.is_none(),
    {
        NodeRef { element: None }
    }

    /// Whether the element exists.
    pub fn is_mounted(&self) -> (mounted: bool)
        ensures
            mounted == self@.is_some(),
    {
        self.element.is_some()
    }

    /// Binds the reference to an element that has come to exist and shows
    /// `initial`.  Returns whether it did: a reference that is bound already
    /// keeps its element and the text in it.
    pub fn mount(&mut self, initial: String) -> (bound: bool)
        ensures
            bound == old(self)@.is_none(),
            bound ==> final(self)@ == Some(initial@),
            !bound ==> final(self)@ == old(self)@,
    {
        if self.element.is_some() {
            false
        } else {
            self.element = Some(initial);
            true
        }
    }

    /// The user types: the element now holds `text`.  Returns whether there
    /// was an element to type into; without one nothing changes.
    pub fn set_value(&mut self, text: String) -> (typed: bool)
        ensures
            typed == old(self)@.is_some(),
            final(self)@ == typed_into(old(self)@, text@),
    {
        if self.element.is_some() {
            self.element = Some(text);
            true
        } else {
            false
        }
    }

    /// The text that the element holds now, or `None` where there is no
    /// element.
    pub fn value(&self) -> (text: Option<String>)
        ensures
            match text {
                Some(t) => self@ == Some(t@),
                None => self@.is_none(),
            },
    {
        match &self.element {
            Some(text) => Some(text.clone()),
            None => None,
        }
    }
}

/// The submission of a form, as far as its handler can act on it: whether
/// what the browser would do by itself, leaving the page, has been called
/// off.
#[derive(Clone, Copy, Debug, PartialEq, Eq, Structural)]
pub struct SubmitEvent {
    /// Whether the default action has been called off.
    pub default_prevented: bool,
}

impl SubmitEvent {
    /// A submission whose default action still stands.
    pub fn new() -> (event: SubmitEvent)
        ensures
            !event.default_prevented,
    {
        SubmitEvent { default_prevented: false }
    }

    /// Calls the default action off.
    pub fn prevent_default(&mut self)
        ensures
            final(self).default_prevented,
    {
        self.default_prevented = true;
    }
}

/// Why a submission failed.
#[derive(Clone, Copy, Debug, PartialEq, Eq, Structural)]
pub enum FormError {
    /// The reference to the uncontrolled input was empty: there is no
    /// element to read.
    MissingInput,
}

impl FormError {
    /// What was expected and not found, in words.
    pub fn message(&self) -> (text: String)
        ensures
            text@ == "<input> to exist"@,
    {
        "<input> to exist".to_owned()
    }
}

/// A form with a controlled and an uncontrolled text input.
pub struct Form {
    name: String,
    name_two: String,
}

impl View for Form {
    type V = FormModel;

    closed spec fn view(&self) -> FormModel {
        FormModel { name: self.name@, submitted: self.name_two@ }
    }
}

impl Form {
    /// A form that nobody has typed into.
    pub fn new() -> (form: Form)
        ensures
            form@ == FormModel::initial(),
    {
        Form { name: "Controlled".to_owned(), name_two: "Uncontrolled".to_owned() }
    }

    /// What the controlled input shows, which is what the form holds.
    pub fn name(&self) -> (text: String)
        ensures
            text@ == self@.name,
    {
        self.name.clone()
    }

    /// The text that was last submitted from the uncontrolled input.  It is
    /// also what that input shows when it first appears.
    pub fn name_two(&self) -> (text: String)
        ensures
            text@ == self@.submitted,
    {
        self.name_two.clone()
    }

    /// A keystroke left `text` in the controlled input: the form holds it
    /// from now on.
    pub fn on_input(&mut self, text: String)
        ensures
            final(self)@ == old(self)@.input(text@),
    {
        self.name = text;
    }

    /// The form is submitted.
    ///
    /// The default action of the submission is called off first, whatever
    /// follows.  Then the uncontrolled input is read through `input`.  Where
    /// the element exists, its text becomes the submitted text.  Where it
    /// does not, the submission fails with [`FormError::MissingInput`] and
    /// the form stays as it was.
    pub fn on_submit(&mut self, event: &mut SubmitEvent, input: &NodeRef) -> (result: Result<
        (),
        FormError,
    >)
        ensures
            final(event).default_prevented,
            final(self)@ == old(self)@.submit(input@),
            result.is_ok() == input@.is_some(),
            result.is_err() ==> result == Err::<(), FormError>(FormError::MissingInput),
    {
        event.prevent_default();
        match input.value() {
            Some(text) => {
                self.name_two = text;
                Ok(())
            },
            None => Err(FormError::MissingInput),
        }
    }
}

} // verus!
