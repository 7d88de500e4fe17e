//! The kinds of currency that circulate between cooperatives.
use vstd::prelude::*;

verus! {

/// A kind of currency.
#[derive(Debug, Clone, PartialEq, Eq, Hash)]
pub enum CurrencyType {
    BasicNeeds,
    Education,
    Environmental,
    Community,
    Volunteer,
    Storage,
    Processing,
    Energy,
    Luxury,
    Service,
    Custom(String),
}

/// A currency kind seen mathematically.
pub enum CurrencyTypeV {
    Named(u8),
    Custom(Seq<char>),
}

impl View for CurrencyType {
    type V = CurrencyTypeV;

    open spec fn view(&self) -> CurrencyTypeV {
        match self {
            CurrencyType::BasicNeeds => CurrencyTypeV::Named(0),
            CurrencyType::Education => CurrencyTypeV::Named(1),
            CurrencyType::Environmental => CurrencyTypeV::Named(2),
            CurrencyType::Community => CurrencyTypeV::Named(3),
            CurrencyType::Volunteer => CurrencyTypeV::Named(4),
            CurrencyType::Storage => CurrencyTypeV::Named(5),
            CurrencyType::Processing => CurrencyTypeV::Named(6),
            CurrencyType::Energy => CurrencyTypeV::Named(7),
            CurrencyType::Luxury => CurrencyTypeV::Named(8),
            CurrencyType::Service => CurrencyTypeV::Named(9),
            CurrencyType::Custom(s) => CurrencyTypeV::Custom(s@),
        }
    }
}

/// The name a built-in currency kind is written with.
pub open spec fn named_currency_text(code: u8) -> Seq<char> {
    if code == 0 {
        "BasicNeeds"@
    } else if code == 1 {
        "Education"@
    } else if code == 2 {
        "Environmental"@
    } else if code == 3 {
        "Community"@
    } else if code == 4 {
        "Volunteer"@
    } else if code == 5 {
        "Storage"@
    } else if code == 6 {
        "Processing"@
    } else if code == 7 {
        "Energy"@
    } else if code == 8 {
        "Luxury"@
    } else {
        "Service"@
    }
}

/// How a currency kind is written: its name, or `Custom(name)`.
pub open spec fn currency_text(c: CurrencyTypeV) -> Seq<char> {
    match c {
        CurrencyTypeV::Named(code) => named_currency_text(code),
        CurrencyTypeV::Custom(name) => "Custom("@ + name + ")"@,
    }
}

impl CurrencyType {
    /// The text the currency kind is displayed with.
    pub fn to_display_string(&self) -> (s: String)
        ensures
            s@ == currency_text(self@),
    {
        match self {
            CurrencyType::BasicNeeds => "BasicNeeds".to_owned(),
            CurrencyType::Education => "Education".to_owned(),
            CurrencyType::Environmental => "Environmental".to_owned(),
            CurrencyType::Community => "Community".to_owned(),
            CurrencyType::Volunteer => "Volunteer".to_owned(),
            CurrencyType::Storage => "Storage".to_owned(),
            CurrencyType::Processing => "Processing".to_owned(),
            CurrencyType::Energy => "Energy".to_owned(),
            CurrencyType::Luxury => "Luxury".to_owned(),
            CurrencyType::Service => "Service".to_owned(),
            CurrencyType::Custom(name) => {
                let mut s = "Custom(".to_owned();
                s.append(name.as_str());
                s.append(")");
                s
            },
        }
    }

    /// Whether two currency kinds are the same.
    pub fn same_as(&self, other: &CurrencyType) -> (b: bool)
        ensures
            b == (self@ == other@),
    {
        match (self, other) {
            (CurrencyType::Custom(a), CurrencyType::Custom(b)) => *a == *b,
            (CurrencyType::Custom(_), _) => false,
            (_, CurrencyType::Custom(_)) => false,
            _ => self.code() == other.code(),
        }
    }

    /// The number of a built-in currency kind.
    fn code(&self) -> (c: u8)
        requires
            !(self is Custom),
        ensures
            self@ == CurrencyTypeV::Named(c),
    {
        match self {
            CurrencyType::BasicNeeds => 0,
            CurrencyType::Education => 1,
            CurrencyType::Environmental => 2,
            CurrencyType::Community => 3,
            CurrencyType::Volunteer => 4,
            CurrencyType::Storage => 5,
            CurrencyType::Processing => 6,
            CurrencyType::Energy => 7,
            CurrencyType::Luxury => 8,
            CurrencyType::Service => 9,
            CurrencyType::Custom(_) => 10,
        }
    }

    /// A copy of this currency kind.
    pub fn duplicate(&self) -> (c: CurrencyType)
        ensures
            c == *self,
            c@ == self@,
    {
        match self {
            CurrencyType::BasicNeeds => CurrencyType::BasicNeeds,
            CurrencyType::Education => CurrencyType::Education,
            CurrencyType::Environmental => CurrencyType::Environmental,
            CurrencyType::Community => CurrencyType::Community,
            CurrencyType::Volunteer => CurrencyType::Volunteer,
            CurrencyType::Storage => CurrencyType::Storage,
            CurrencyType::Processing => CurrencyType::Processing,
            CurrencyType::Energy => CurrencyType::Energy,
            CurrencyType::Luxury => CurrencyType::Luxury,
            CurrencyType::Service => CurrencyType::Service,
            CurrencyType::Custom(name) => CurrencyType::Custom(name.clone()),
        }
    }
}

/// The refusal of a custom currency named `name` that exists already.
pub open spec fn currency_exists_text(name: Seq<char>) -> Seq<char> {
    "Currency '"@ + name + "' already exists"@
}

/// The kind of a new custom currency named `name`, given the kinds that
/// `existing` holds already: refused when that custom kind is among them.
pub fn new_custom_currency(name: &str, existing: &[CurrencyType]) -> (r: Result<CurrencyType, String>)
    ensures
        (exists|i: int| 0 <= i < existing@.len() && #[trigger] existing@[i]@ == CurrencyTypeV::Custom(name@))
            <==> r is Err,
        r matches Err(e) ==> e@ == currency_exists_text(name@),
        r matches Ok(c) ==> c@ == CurrencyTypeV::Custom(name@),
{
    let wanted = CurrencyType::Custom(name.to_owned());
    let mut i: usize = 0;
    while i < existing.len()
        invariant
            i <= existing@.len(),
            wanted@ == CurrencyTypeV::Custom(name@),
            forall|j: int| 0 <= j < i ==> existing@[j]@ != CurrencyTypeV::Custom(name@),
        decreases existing@.len() - i,
    {
        if existing[i].same_as(&wanted) {
            let mut e = "Currency '".to_owned();
            e.append(name);
            e.append("' already exists");
            return Err(e);
        }
        i = i + 1;
    }
    Ok(wanted)
}

} // verus!
