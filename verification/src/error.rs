use vstd::prelude::*;

verus! {

/// The failures that the data pipeline and the architecture plan report.
#[derive(Debug, Clone, Copy, PartialEq, Eq, Structural)]
pub enum ElmoError {
    /// The program was not started with exactly one argument, the path of
    /// its configuration document.
    Arguments,
    /// A hyperparameter is missing or unusable: an unset token length, a
    /// count that is not positive, parallel lists of different lengths.
    Config,
    /// A required symbol (pad, unknown character, unknown token) has no
    /// entry in its mapping.
    Vocabulary,
    /// An example index or a split index lies outside its range.
    Index,
    /// A shape has the wrong rank or a width that does not fit.
    ShapeMismatch,
}

impl ElmoError {
    /// A sentence for the operator.
    pub fn message(&self) -> (text: String)
        ensures
            text@ == match *self {
                ElmoError::Arguments => "input should be a path to json file only"@,
                ElmoError::Config => "a hyperparameter is missing or unusable"@,
                ElmoError::Vocabulary => "a required symbol has no entry in its vocabulary"@,
                ElmoError::Index => "an index lies outside its range"@,
                ElmoError::ShapeMismatch => "a shape has the wrong rank or width"@,
            },
    {
        match self {
            ElmoError::Arguments => "input should be a path to json file only".to_owned(),
            ElmoError::Config => "a hyperparameter is missing or unusable".to_owned(),
            ElmoError::Vocabulary => "a required symbol has no entry in its vocabulary".to_owned(),
            ElmoError::Index => "an index lies outside its range".to_owned(),
            ElmoError::ShapeMismatch => "a shape has the wrong rank or width".to_owned(),
        }
    }
}

} // verus!
