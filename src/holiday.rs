//! The holiday record.
use vstd::prelude::*;

use crate::date::Date;
use crate::text::{comma_sep, joined, pad_right, push_padded_right};
use vstd::string::StringExecFns;

verus! {

/// What kind of day off a holiday is; a holiday may carry several.
#[derive(Clone, Copy, Debug, PartialEq, Eq, Structural)]
pub enum HolidayType {
    Public,
    Bank,
    School,
    Authorities,
    Optional,
    Observance,
}

impl HolidayType {
    pub open spec fn spec_name(self) -> Seq<char> {
        match self {
            HolidayType::Public => "Public"@,
            HolidayType::Bank => "Bank"@,
            HolidayType::School => "School"@,
            HolidayType::Authorities => "Authorities"@,
            HolidayType::Optional => "Optional"@,
            HolidayType::Observance => "Observance"@,
        }
    }

    /// The variant's name, as it is displayed and as the API spells it.
    pub fn name(&self) -> (r: &'static str)
        ensures
            r@ == self.spec_name(),
    {
        match self {
            HolidayType::Public => "Public",
            HolidayType::Bank => "Bank",
            HolidayType::School => "School",
            HolidayType::Authorities => "Authorities",
            HolidayType::Optional => "Optional",
            HolidayType::Observance => "Observance",
        }
    }
}

/// One occurrence of a named holiday.
#[derive(Debug)]
pub struct Holiday {
    pub date: Date,
    pub name: String,
    /// Sub-regions where the holiday applies; empty when it applies nationwide.
    pub counties: Vec<String>,
    pub types: Vec<HolidayType>,
}

impl Holiday {
    /// The holiday on one line: date, name in 40 columns, counties in 25,
    /// then types.
    pub open spec fn spec_line(self) -> Seq<char> {
        self.date.spec_iso() + " "@
            + pad_right(self.name@, 40, ' ') + " "@
            + pad_right(joined(self.counties@.map_values(|c: String| c@)), 25, ' ') + " "@
            + joined(self.types@.map_values(|t: HolidayType| t.spec_name()))
    }

    /// The holiday on one line, as it is listed.
    pub fn line(&self) -> (r: String)
        ensures
            r@ == self.spec_line(),
    {
        proof { reveal_strlit(" "); }
        let mut names: Vec<String> = Vec::new();
        let mut i: usize = 0;
        while i < self.types.len()
            invariant
                i <= self.types@.len(),
                names@.len() == i,
                forall|j: int| 0 <= j < i ==> (#[trigger] names@[j])@ == self.types@[j].spec_name(),
            decreases self.types.len() - i,
        {
            names.push(String::from_str(self.types[i].name()));
            i = i + 1;
        }
        assert(names@.map_values(|x: String| x@)
            =~= self.types@.map_values(|t: HolidayType| t.spec_name()));
        let counties = comma_sep(self.counties.as_slice());
        let types = comma_sep(names.as_slice());
        let mut r = self.date.iso_string();
        r.append(" ");
        push_padded_right(&mut r, self.name.as_str(), 40);
        r.append(" ");
        push_padded_right(&mut r, counties.as_str(), 25);
        r.append(" ");
        r.append(types.as_str());
        assert(r@ =~= self.spec_line());
        r
    }

    /// Builds a holiday from a source record, where absent counties mean the
    /// whole country.
    pub fn from_record(
        date: Date,
        name: String,
        counties: Option<Vec<String>>,
        types: Vec<HolidayType>,
    ) -> (r: Holiday)
        ensures
            r.date == date,
            r.name == name,
            counties matches Some(c) ==> r.counties == c,
            counties is None ==> r.counties@.len() == 0,
            r.types == types,
    {
        let counties = match counties {
            Some(c) => c,
            None => Vec::new(),
        };
        Holiday { date, name, counties, types }
    }
}

} // verus!
