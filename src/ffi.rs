//! Values with a fixed, ownership-explicit representation, which host and
//! plugin can both read although they were compiled apart.
use vstd::prelude::*;
use vstd::string::*;

verus! {

/// A borrowed view of contiguous elements; it never owns them.
#[derive(Clone, Copy)]
pub struct FfiSlice<'t, T> {
    data: &'t [T],
}

impl<'t, T> View for FfiSlice<'t, T> {
    type V = Seq<T>;

    closed spec fn view(&self) -> Seq<T> {
        self.data@
    }
}

impl<'t, T> FfiSlice<'t, T> {
    /// The slice that the view was built from.
    pub closed spec fn source(&self) -> &'t [T] {
        self.data
    }

    /// Constructs a view of `slice`.
    pub fn new(slice: &'t [T]) -> (r: Self)
        ensures
            r@ == slice@,
    {
        FfiSlice { data: slice }
    }

    /// Returns the number of elements in the view.
    pub fn len(&self) -> (r: usize)
        ensures
            r == self@.len(),
    {
        self.data.len()
    }

    /// Checks if the view holds no element.
    pub fn is_empty(&self) -> (r: bool)
        ensures
            r == (self@.len() == 0),
    {
        self.data.len() == 0
    }

    /// Constructs back the slice that the view was built from.
    pub fn to_slice(&self) -> (r: &'t [T])
        ensures
            r@ == self@,
    {
        self.data
    }

    /// Returns an iterator over the elements, in order.
    pub fn iter(&self) -> (r: core::slice::Iter<'t, T>)
        ensures
            r == vstd::std_specs::slice::spec_slice_iter(self.source()),
            self.source()@ == self@,
    {
        self.data.iter()
    }
}

/// An owned run of contiguous elements, released once when dropped.
pub struct FfiBoxedSlice<T> {
    data: Vec<T>,
}

impl<T> View for FfiBoxedSlice<T> {
    type V = Seq<T>;

    closed spec fn view(&self) -> Seq<T> {
        self.data@
    }
}

impl<T> FfiBoxedSlice<T> {
    /// Takes ownership of a boxed slice.
    pub fn new(slice: Box<[T]>) -> (r: Self)
        ensures
            r@ == slice@,
    {
        FfiBoxedSlice { data: slice.into_vec() }
    }

    /// Takes ownership of the elements of a vector.
    pub fn from_vec(v: Vec<T>) -> (r: Self)
        ensures
            r@ == v@,
    {
        FfiBoxedSlice { data: v }
    }

    /// Gives the elements back as a vector.
    pub fn into_vec(self) -> (r: Vec<T>)
        ensures
            r@ == self@,
    {
        self.data
    }

    /// Returns the number of elements.
    pub fn len(&self) -> (r: usize)
        ensures
            r == self@.len(),
    {
        self.data.len()
    }

    /// Checks if there is no element.
    pub fn is_empty(&self) -> (r: bool)
        ensures
            r == (self@.len() == 0),
    {
        self.data.len() == 0
    }

    /// Returns a borrowed view of the elements.
    pub fn as_slice(&self) -> (r: FfiSlice<'_, T>)
        ensures
            r@ == self@,
    {
        FfiSlice { data: self.data.as_slice() }
    }

    /// Constructs back a slice of the elements.
    pub fn to_slice(&self) -> (r: &[T])
        ensures
            r@ == self@,
    {
        self.data.as_slice()
    }
}

/// Whether `s` holds no nul character.
pub open spec fn nul_free(s: Seq<char>) -> bool {
    forall|i: int| 0 <= i < s.len() ==> #[trigger] s[i] != '\0'
}

/// `p` is the text of `s` before its first nul character.
pub open spec fn before_first_nul(s: Seq<char>, p: Seq<char>) -> bool {
    &&& p.len() < s.len()
    &&& s[p.len() as int] == '\0'
    &&& p == s.subrange(0, p.len() as int)
    &&& nul_free(p)
}

/// Index of the first nul character of `s[from..]`, if any, found by a scan.
fn find_nul(s: &str, n: usize) -> (r: Option<usize>)
    requires
        n == s@.len(),
    ensures
        match r {
            Some(i) => i < n && s@[i as int] == '\0' && nul_free(s@.subrange(0, i as int)),
            None => nul_free(s@),
        },
{
    let mut i: usize = 0;
    while i < n
        invariant
            n == s@.len(),
            i <= n,
            forall|j: int| 0 <= j < i ==> #[trigger] s@[j] != '\0',
        decreases n - i,
    {
        if s.get_char(i) == '\0' {
            return Some(i);
        }
        i = i + 1;
    }
    None
}

/// A borrowed, nul-terminated text view; it never owns the text.
#[derive(Clone, Copy)]
pub struct FfiStr<'s> {
    text: &'s str,
}

impl<'s> View for FfiStr<'s> {
    type V = Seq<char>;

    closed spec fn view(&self) -> Seq<char> {
        self.text@
    }
}

/// The text handed to [`FfiStr::new`] holds no nul terminator.
#[derive(Debug, Clone, Copy, PartialEq, Eq, Structural)]
pub struct MissingNul;

impl<'s> FfiStr<'s> {
    /// Well-formed views hold no nul character: the terminator follows them.
    pub open spec fn wf(&self) -> bool {
        nul_free(self@)
    }

    /// Constructs a view of the text of `s` before its first nul character.
    ///
    /// # Errors
    /// Fails when `s` holds no nul character.
    pub fn new(s: &'s str) -> (r: Result<Self, MissingNul>)
        ensures
            r is Ok <==> !nul_free(s@),
            r matches Ok(v) ==> before_first_nul(s@, v@) && v.wf(),
    {
        let n = s.unicode_len();
        match find_nul(s, n) {
            Some(i) => Ok(FfiStr { text: s.substring_char(0, i) }),
            None => Err(MissingNul),
        }
    }

    /// Constructs back the text, without its terminator.
    pub fn to_str(&self) -> (r: &'s str)
        ensures
            r@ == self@,
    {
        self.text
    }
}

/// An owned, nul-terminated text.
#[derive(Clone)]
pub struct FfiString {
    text: String,
}

impl View for FfiString {
    type V = Seq<char>;

    closed spec fn view(&self) -> Seq<char> {
        self.text@
    }
}

/// The text handed to [`FfiString::new`] holds a nul character.
#[derive(Debug, Clone, Copy, PartialEq, Eq, Structural)]
pub struct InteriorNul {
    /// Index, in characters, of the first nul character.
    pub position: usize,
}

impl FfiString {
    /// Well-formed texts hold no nul character: the terminator follows them.
    pub open spec fn wf(&self) -> bool {
        nul_free(self@)
    }

    /// Takes ownership of `s`.
    ///
    /// # Errors
    /// Fails when `s` holds a nul character, giving the first one's index.
    pub fn new(s: String) -> (r: Result<Self, InteriorNul>)
        ensures
            r is Ok <==> nul_free(s@),
            r matches Ok(v) ==> v@ == s@ && v.wf(),
            r matches Err(e) ==> e.position < s@.len() && s@[e.position as int] == '\0'
                && nul_free(s@.subrange(0, e.position as int)),
    {
        let n = s.as_str().unicode_len();
        match find_nul(s.as_str(), n) {
            Some(i) => Err(InteriorNul { position: i }),
            None => Ok(FfiString { text: s }),
        }
    }

    /// Returns a borrowed view of the text.
    pub fn as_str(&self) -> (r: FfiStr<'_>)
        ensures
            r@ == self@,
    {
        FfiStr { text: self.text.as_str() }
    }

    /// Constructs back the text, without its terminator.
    pub fn to_str(&self) -> (r: &str)
        ensures
            r@ == self@,
    {
        self.text.as_str()
    }
}

/// A calendar date as its Julian day number.
#[derive(Debug, Clone, Copy, PartialEq, Eq, Structural, PartialOrd, Ord, Hash)]
pub struct FfiDate(pub i32);

impl FfiDate {
    /// The date whose Julian day number is `day`.
    pub fn from_julian_day(day: i32) -> (r: FfiDate)
        ensures
            r.0 == day,
    {
        FfiDate(day)
    }

    /// The Julian day number of the date.
    pub fn julian_day(&self) -> (r: i32)
        ensures
            r == self.0,
    {
        self.0
    }

    /// Orders dates by day number.
    pub fn compare(&self, other: &FfiDate) -> (r: core::cmp::Ordering)
        ensures
            r == (if self.0 < other.0 {
                core::cmp::Ordering::Less
            } else if self.0 > other.0 {
                core::cmp::Ordering::Greater
            } else {
                core::cmp::Ordering::Equal
            }),
    {
        if self.0 < other.0 {
            core::cmp::Ordering::Less
        } else if self.0 > other.0 {
            core::cmp::Ordering::Greater
        } else {
            core::cmp::Ordering::Equal
        }
    }
}

/// A time of day as hour, minute and second.
#[derive(Debug, Clone, Copy, PartialEq, Eq, Structural, Hash)]
pub struct FfiTime {
    hour: u8,
    minute: u8,
    second: u8,
}

/// Whether `(h, m, s)` is a time of day.
pub open spec fn valid_hms(h: u8, m: u8, s: u8) -> bool {
    h < 24 && m < 60 && s < 60
}

/// Lexicographic order on `(hour, minute, second)`.
pub open spec fn hms_order(a: (u8, u8, u8), b: (u8, u8, u8)) -> core::cmp::Ordering {
    if a.0 != b.0 {
        if a.0 < b.0 {
            core::cmp::Ordering::Less
        } else {
            core::cmp::Ordering::Greater
        }
    } else if a.1 != b.1 {
        if a.1 < b.1 {
            core::cmp::Ordering::Less
        } else {
            core::cmp::Ordering::Greater
        }
    } else if a.2 < b.2 {
        core::cmp::Ordering::Less
    } else if a.2 > b.2 {
        core::cmp::Ordering::Greater
    } else {
        core::cmp::Ordering::Equal
    }
}

impl View for FfiTime {
    type V = (u8, u8, u8);

    closed spec fn view(&self) -> (u8, u8, u8) {
        (self.hour, self.minute, self.second)
    }
}

impl FfiTime {
    /// Every value holds a time of day.
    pub open spec fn wf(&self) -> bool {
        valid_hms(self@.0, self@.1, self@.2)
    }

    /// The time `hour:minute:second`, when that is a time of day.
    pub fn from_hms(hour: u8, minute: u8, second: u8) -> (r: Option<FfiTime>)
        ensures
            r is Some <==> valid_hms(hour, minute, second),
            r matches Some(t) ==> t@ == (hour, minute, second) && t.wf(),
    {
        if hour < 24 && minute < 60 && second < 60 {
            Some(FfiTime { hour, minute, second })
        } else {
            None
        }
    }

    /// The hour, minute and second.
    pub fn as_hms(&self) -> (r: (u8, u8, u8))
        ensures
            r == self@,
    {
        (self.hour, self.minute, self.second)
    }

    /// Orders times by `(hour, minute, second)`.
    pub fn compare(&self, other: &FfiTime) -> (r: core::cmp::Ordering)
        ensures
            r == hms_order(self@, other@),
    {
        if self.hour != other.hour {
            if self.hour < other.hour {
                core::cmp::Ordering::Less
            } else {
                core::cmp::Ordering::Greater
            }
        } else if self.minute != other.minute {
            if self.minute < other.minute {
                core::cmp::Ordering::Less
            } else {
                core::cmp::Ordering::Greater
            }
        } else if self.second < other.second {
            core::cmp::Ordering::Less
        } else if self.second > other.second {
            core::cmp::Ordering::Greater
        } else {
            core::cmp::Ordering::Equal
        }
    }
}

/// An optional value: present or absent.
#[derive(Debug, Clone, Copy)]
pub enum FfiOption<T> {
    /// A present value.
    Present(T),
    /// No value.
    Absent,
}

/// The native optional value that `o` stands for.
pub open spec fn option_of<T>(o: FfiOption<T>) -> Option<T> {
    match o {
        FfiOption::Present(v) => Option::Some(v),
        FfiOption::Absent => Option::None,
    }
}

/// The value that stands for the native optional value `o`.
pub open spec fn ffi_option<T>(o: Option<T>) -> FfiOption<T> {
    match o {
        Option::Some(v) => FfiOption::Present(v),
        Option::None => FfiOption::Absent,
    }
}

impl<T> FfiOption<T> {
    /// Builds the value that stands for `o`.
    pub fn from_option(o: Option<T>) -> (r: FfiOption<T>)
        ensures
            r == ffi_option(o),
    {
        match o {
            Option::Some(v) => FfiOption::Present(v),
            Option::None => FfiOption::Absent,
        }
    }

    /// Gives back the native optional value.
    pub fn into_option(self) -> (r: Option<T>)
        ensures
            r == option_of(self),
    {
        match self {
            FfiOption::Present(v) => Option::Some(v),
            FfiOption::Absent => Option::None,
        }
    }

    /// Converts from `&FfiOption<T>` to `Option<&T>`.
    pub fn as_ref(&self) -> (r: Option<&T>)
        ensures
            match *self {
                FfiOption::Present(v) => r is Some && *r->Some_0 == v,
                FfiOption::Absent => r is None,
            },
    {
        match self {
            FfiOption::Present(v) => Option::Some(v),
            FfiOption::Absent => Option::None,
        }
    }
}

/// A two-variant result: a value or an error.
#[derive(Debug, Clone, Copy)]
pub enum FfiResult<T, E> {
    /// A value.
    Success(T),
    /// An error.
    Failure(E),
}

/// The native result that `r` stands for.
pub open spec fn result_of<T, E>(r: FfiResult<T, E>) -> Result<T, E> {
    match r {
        FfiResult::Success(v) => Result::Ok(v),
        FfiResult::Failure(e) => Result::Err(e),
    }
}

/// The value that stands for the native result `r`.
pub open spec fn ffi_result<T, E>(r: Result<T, E>) -> FfiResult<T, E> {
    match r {
        Result::Ok(v) => FfiResult::Success(v),
        Result::Err(e) => FfiResult::Failure(e),
    }
}

impl<T, E> FfiResult<T, E> {
    /// Builds the value that stands for `r`.
    pub fn from_result(r: Result<T, E>) -> (out: FfiResult<T, E>)
        ensures
            out == ffi_result(r),
    {
        match r {
            Result::Ok(v) => FfiResult::Success(v),
            Result::Err(e) => FfiResult::Failure(e),
        }
    }

    /// Gives back the native result.
    pub fn into_result(self) -> (r: Result<T, E>)
        ensures
            r == result_of(self),
    {
        match self {
            FfiResult::Success(v) => Result::Ok(v),
            FfiResult::Failure(e) => Result::Err(e),
        }
    }
}

/// Converting an optional value to its fixed form and back gives it back, and
/// so does the other direction.
pub proof fn lemma_option_round_trip<T>(o: Option<T>, f: FfiOption<T>)
    ensures
        option_of(ffi_option(o)) == o,
        ffi_option(option_of(f)) == f,
{
}

/// Converting a result to its fixed form and back gives it back, and so does
/// the other direction.
pub proof fn lemma_result_round_trip<T, E>(r: Result<T, E>, f: FfiResult<T, E>)
    ensures
        result_of(ffi_result(r)) == r,
        ffi_result(result_of(f)) == f,
{
}

/// A text without nul, once terminated, is accepted by [`FfiStr::new`], and
/// the view reads back exactly that text.
pub proof fn lemma_str_round_trip(s: Seq<char>, p: Seq<char>)
    requires
        nul_free(s),
    ensures
        !nul_free(s.push('\0')),
        before_first_nul(s.push('\0'), p) ==> p == s,
{
    let t = s.push('\0');
    assert(t[s.len() as int] == '\0');
    if before_first_nul(t, p) {
        if p.len() < s.len() {
            assert(t[p.len() as int] == s[p.len() as int]);
        }
        assert(p =~= s);
    }
}

} // verus!
