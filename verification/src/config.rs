//! What a comparison is run with: how lines are compared and which of the
//! three output columns are left out.

use vstd::prelude::*;

verus! {

/// The settings of a `Config` or a `CreateConfig` as plain values.
pub struct ConfigView {
    pub ignore_case: bool,
    pub suppress_column_1: bool,
    pub suppress_column_2: bool,
    pub suppress_column_3: bool,
}

impl ConfigView {
    /// Whether rows tagged `column` are left out of the output. Tag 0 is
    /// column 1 (first input only), tag 1 is column 2 (second input only),
    /// tag 2 is column 3 (both inputs); no other tag is ever left out.
    pub open spec fn suppresses(self, column: u8) -> bool {
        if column == 0 {
            self.suppress_column_1
        } else if column == 1 {
            self.suppress_column_2
        } else if column == 2 {
            self.suppress_column_3
        } else {
            false
        }
    }

    /// The same settings for a comparison with the two inputs exchanged:
    /// the flags of columns 1 and 2 change places.
    pub open spec fn mirrored(self) -> ConfigView {
        ConfigView {
            ignore_case: self.ignore_case,
            suppress_column_1: self.suppress_column_2,
            suppress_column_2: self.suppress_column_1,
            suppress_column_3: self.suppress_column_3,
        }
    }
}

/// The settings of one comparison. Built once, by `CreateConfig::create`,
/// and never changed afterwards.
#[derive(Debug)]
pub struct Config {
    ignore_case: bool,
    suppress_column_1: bool,
    suppress_column_2: bool,
    suppress_column_3: bool,
}

impl View for Config {
    type V = ConfigView;

    closed spec fn view(&self) -> ConfigView {
        ConfigView {
            ignore_case: self.ignore_case,
            suppress_column_1: self.suppress_column_1,
            suppress_column_2: self.suppress_column_2,
            suppress_column_3: self.suppress_column_3,
        }
    }
}

impl Config {
    /// Whether lines are compared by their lower-case forms.
    pub fn ignore_case(&self) -> (r: bool)
        ensures
            r == self@.ignore_case,
    {
        self.ignore_case
    }

    /// Whether rows tagged `column` (0, 1 or 2) are left out of the output.
    pub fn suppresses(&self, column: u8) -> (r: bool)
        ensures
            r == self@.suppresses(column),
    {
        if column == 0 {
            self.suppress_column_1
        } else if column == 1 {
            self.suppress_column_2
        } else if column == 2 {
            self.suppress_column_3
        } else {
            false
        }
    }
}

/// Builder of a `Config`. Every setting starts out as `false`.
pub struct CreateConfig {
    ignore_case: bool,
    suppress_column_1: bool,
    suppress_column_2: bool,
    suppress_column_3: bool,
}

impl View for CreateConfig {
    type V = ConfigView;

    closed spec fn view(&self) -> ConfigView {
        ConfigView {
            ignore_case: self.ignore_case,
            suppress_column_1: self.suppress_column_1,
            suppress_column_2: self.suppress_column_2,
            suppress_column_3: self.suppress_column_3,
        }
    }
}

impl Default for CreateConfig {
    fn default() -> (r: CreateConfig)
        ensures
            r@ == (ConfigView {
                ignore_case: false,
                suppress_column_1: false,
                suppress_column_2: false,
                suppress_column_3: false,
            }),
    {
        CreateConfig {
            ignore_case: false,
            suppress_column_1: false,
            suppress_column_2: false,
            suppress_column_3: false,
        }
    }
}

impl CreateConfig {
    /// A builder with every setting `false`: lines are compared as they
    /// are, and all three columns are shown.
    pub fn new() -> (r: CreateConfig)
        ensures
            r@ == (ConfigView {
                ignore_case: false,
                suppress_column_1: false,
                suppress_column_2: false,
                suppress_column_3: false,
            }),
    {
        CreateConfig {
            ignore_case: false,
            suppress_column_1: false,
            suppress_column_2: false,
            suppress_column_3: false,
        }
    }

    /// Sets whether lines are compared by their lower-case forms.
    pub fn ignore_case(self, value: bool) -> (r: CreateConfig)
        ensures
            r@ == (ConfigView { ignore_case: value, ..self@ }),
    {
        let mut next = self;
        next.ignore_case = value;
        next
    }

    /// Sets whether column 1, 2 or 3 is left out of the output. Any other
    /// column number changes nothing.
    pub fn suppress_column(self, column: u8, value: bool) -> (r: CreateConfig)
        ensures
            column == 1 ==> r@ == (ConfigView { suppress_column_1: value, ..self@ }),
            column == 2 ==> r@ == (ConfigView { suppress_column_2: value, ..self@ }),
            column == 3 ==> r@ == (ConfigView { suppress_column_3: value, ..self@ }),
            column != 1 && column != 2 && column != 3 ==> r@ == self@,
    {
        let mut next = self;
        if column == 1 {
            next.suppress_column_1 = value;
        } else if column == 2 {
            next.suppress_column_2 = value;
        } else if column == 3 {
            next.suppress_column_3 = value;
        }
        next
    }

    /// The configuration that holds the builder's settings.
    pub fn create(&self) -> (r: Config)
        ensures
            r@ == self@,
    {
        Config {
            ignore_case: self.ignore_case,
            suppress_column_1: self.suppress_column_1,
            suppress_column_2: self.suppress_column_2,
            suppress_column_3: self.suppress_column_3,
        }
    }
}

} // verus!
