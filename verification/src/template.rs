//! Filling in templates.
use crate::pieces;
use crate::text::same;
use vstd::prelude::*;

verus! {

/// A part of a template.
pub enum Part {
    /// A text that is kept.
    Text(String),
    /// A place for the value of a name.
    Value(String),
}

/// The model of a [`Part`].
pub enum PartView {
    Text(Seq<char>),
    Value(Seq<char>),
}

impl View for Part {
    type V = PartView;

    open spec fn view(&self) -> PartView {
        match self {
            Part::Text(text) => PartView::Text(text@),
            Part::Value(name) => PartView::Value(name@),
        }
    }
}

/// A template: its parts, and the names that they have places for.
pub struct Template {
    pub placeholders: Vec<String>,
    pub parts: Vec<Part>,
}

/// The model of a [`Template`].
pub struct TemplateView {
    pub placeholders: Seq<Seq<char>>,
    pub parts: Seq<PartView>,
}

impl View for Template {
    type V = TemplateView;

    open spec fn view(&self) -> TemplateView {
        TemplateView {
            placeholders: pieces::texts(self.placeholders@),
            parts: Seq::new(self.parts@.len(), |i: int| self.parts@[i]@),
        }
    }
}

/// The model of a template, or of why it is none.
pub open spec fn parsed(template: Result<Template, String>) -> Result<TemplateView, Seq<char>> {
    match template {
        Ok(template) => Ok(template@),
        Err(error) => Err(error@),
    }
}

/// Values by name.
pub struct Values {
    pub list: Vec<(String, String)>,
}

/// The model of [`Values`].
pub type ValuesView = Seq<(Seq<char>, Seq<char>)>;

impl View for Values {
    type V = ValuesView;

    open spec fn view(&self) -> ValuesView {
        Seq::new(self.list@.len(), |i: int| (self.list@[i].0@, self.list@[i].1@))
    }
}

/// The value of a name, by the first entry from `from` on.
pub open spec fn value_of(values: ValuesView, name: Seq<char>, from: int) -> Option<Seq<char>>
    decreases values.len() - from,
{
    if from < 0 || from >= values.len() {
        None
    } else if values[from].0 == name {
        Some(values[from].1)
    } else {
        value_of(values, name, from + 1)
    }
}

impl Values {
    /// No values.
    pub fn new() -> (values: Self)
        ensures
            values@ == ValuesView::empty(),
    {
        let values = Values { list: Vec::new() };
        assert(values@ =~= ValuesView::empty());
        values
    }

    /// Adds a value.
    pub fn push(&mut self, name: &str, value: String)
        ensures
            final(self)@ == old(self)@.push((name@, value@)),
    {
        let ghost before = self@;
        self.list.push((name.to_owned(), value));
        assert(self@ =~= before.push((name@, value@)));
    }

    /// The values with one more.
    pub fn with(self, name: &str, value: String) -> (values: Self)
        ensures
            values@ == self@.push((name@, value@)),
    {
        let mut values = self;
        values.push(name, value);
        values
    }

    /// The value of a name.
    pub fn get(&self, name: &str) -> (value: Option<&str>)
        ensures
            match value {
                Some(value) => value_of(self@, name@, 0) == Some(value@),
                None => value_of(self@, name@, 0) is None,
            },
    {
        let ghost all = self@;
        let mut index: usize = 0;
        while index < self.list.len()
            invariant
                index <= self.list@.len(),
                all == self@,
                value_of(all, name@, 0) == value_of(all, name@, index as int),
            decreases self.list@.len() - index,
        {
            assert(all[index as int] == (self.list@[index as int].0@, self.list@[index as int].1@));
            if same(self.list[index].0.as_str(), name) {
                return Some(self.list[index].1.as_str());
            }
            index += 1;
        }
        None
    }
}

/// The first name from `from` on that has no value.
pub open spec fn first_missing(names: Seq<Seq<char>>, values: ValuesView, from: int) -> Option<
    Seq<char>,
>
    decreases names.len() - from,
{
    if from < 0 || from >= names.len() {
        None
    } else if value_of(values, names[from], 0) is None {
        Some(names[from])
    } else {
        first_missing(names, values, from + 1)
    }
}

/// The first `end` parts with the values in their places.
pub open spec fn filled(parts: Seq<PartView>, values: ValuesView, end: int) -> Seq<char>
    decreases end,
{
    if end <= 0 {
        Seq::empty()
    } else {
        filled(parts, values, end - 1) + (match parts[end - 1] {
            PartView::Text(text) => text,
            PartView::Value(name) => match value_of(values, name, 0) {
                Some(value) => value,
                None => Seq::empty(),
            },
        })
    }
}

/// The text of a template; `lacking` and the name where a value is missing.
pub open spec fn rendered(
    template: Result<TemplateView, Seq<char>>,
    values: ValuesView,
    lacking: Seq<char>,
) -> Result<Seq<char>, Seq<char>> {
    match template {
        Err(reason) => Err(reason),
        Ok(template) => match first_missing(template.placeholders, values, 0) {
            Some(name) => Err(lacking + name),
            None => Ok(filled(template.parts, values, template.parts.len() as int)),
        },
    }
}

/// Fills in a template.
pub fn render(template: &Result<Template, String>, values: &Values, lacking: &str) -> (result: Result<
    String,
    String,
>)
    ensures
        pieces::told(result) == rendered(parsed(*template), values@, lacking@),
{
    let template = match template {
        Err(error) => {
            return Err(error.clone());
        },
        Ok(template) => template,
    };
    if let Some(name) = find_missing(&template.placeholders, values) {
        return Err(lacking.to_owned().concat(name.as_str()));
    }
    let ghost parts = template@.parts;
    let mut text = String::new();
    let mut index: usize = 0;
    assert(text@ =~= Seq::<char>::empty());
    while index < template.parts.len()
        invariant
            index <= template.parts@.len(),
            parts == template@.parts,
            text@ == filled(parts, values@, index as int),
        decreases template.parts@.len() - index,
    {
        assert(parts[index as int] == template.parts@[index as int]@);
        let ghost before = text@;
        match &template.parts[index] {
            Part::Text(kept) => {
                text.append(kept.as_str());
            },
            Part::Value(name) => {
                if let Some(value) = values.get(name.as_str()) {
                    text.append(value);
                }
                assert(before + Seq::<char>::empty() =~= before);
            },
        }
        index += 1;
    }
    Ok(text)
}

fn find_missing(names: &Vec<String>, values: &Values) -> (missing: Option<String>)
    ensures
        pieces::optional(missing) == first_missing(pieces::texts(names@), values@, 0),
{
    let ghost all = pieces::texts(names@);
    let mut index: usize = 0;
    while index < names.len()
        invariant
            index <= names@.len(),
            all == pieces::texts(names@),
            first_missing(all, values@, 0) == first_missing(all, values@, index as int),
        decreases names@.len() - index,
    {
        assert(all[index as int] == names@[index as int]@);
        if values.get(names[index].as_str()).is_none() {
            return Some(names[index].clone());
        }
        index += 1;
    }
    None
}

/// Templates by name.
pub struct Templates {
    pub entries: Vec<(String, Result<Template, String>)>,
}

/// The model of [`Templates`].
pub type TemplatesView = Seq<(Seq<char>, Result<TemplateView, Seq<char>>)>;

impl View for Templates {
    type V = TemplatesView;

    open spec fn view(&self) -> TemplatesView {
        Seq::new(self.entries@.len(), |i: int| (self.entries@[i].0@, parsed(self.entries@[i].1)))
    }
}

/// The template of a name, by the first entry from `from` on; `absent` where there is none.
pub open spec fn template_of(
    templates: TemplatesView,
    name: Seq<char>,
    absent: Seq<char>,
    from: int,
) -> Result<TemplateView, Seq<char>>
    decreases templates.len() - from,
{
    if from < 0 || from >= templates.len() {
        Err(absent)
    } else if templates[from].0 == name {
        templates[from].1
    } else {
        template_of(templates, name, absent, from + 1)
    }
}

impl Templates {
    /// Fills in the template of a name.
    pub fn render(&self, name: &str, values: &Values, absent: &str, lacking: &str) -> (result: Result<
        String,
        String,
    >)
        ensures
            pieces::told(result) == rendered(
                template_of(self@, name@, absent@, 0),
                values@,
                lacking@,
            ),
    {
        let ghost all = self@;
        let mut index: usize = 0;
        while index < self.entries.len()
            invariant
                index <= self.entries@.len(),
                all == self@,
                template_of(all, name@, absent@, 0) == template_of(
                    all,
                    name@,
                    absent@,
                    index as int,
                ),
            decreases self.entries@.len() - index,
        {
            assert(all[index as int] == (self.entries@[index as int].0@, parsed(
                self.entries@[index as int].1,
            )));
            if same(self.entries[index].0.as_str(), name) {
                return render(&self.entries[index].1, values, lacking);
            }
            index += 1;
        }
        Err(absent.to_owned())
    }
}

} // verus!
