use vstd::prelude::*;

verus! {

/// The functions that a formula may call.
#[derive(Debug, Clone, Copy, PartialEq, Eq, Structural, Hash)]
#[allow(non_camel_case_types)]
pub enum FunctionName {
    /// Calculates the absolute value of a number. The absolute value of a number is the number without its positive or negative sign.
    ABS,
    /// Returns the date that is the indicated number of months before or after a specified date. If the specified date is the last day of the month, the resulting date is the last day of the resulting month. Otherwise, the result has the same date component as the specified date.
    ADDMONTHS,
    /// Returns a TRUE response if all values are true; returns a FALSE response if one or more values are false.
    AND,
    /// Determines if text begins with specific characters and returns TRUE if it does. Returns FALSE if it doesn't.
    BEGINS,
    /// Determines if an expression has a value and returns a substitute expression if it doesn’t. If the expression has a value, returns the value of the expression.
    BLANKVALUE,
    /// Inserts a line break in a string of text.
    BR,
    /// Checks a given expression against a series of values. If the expression is equal to a value, returns the corresponding result. If it isn't equal to any of the values, returns the else_result.
    CASE,
    /// Converts a 15-character ID to a case-insensitive 18-character ID. In Salesforce Classic, the function converts only valid Salesforce 15-character IDs. If you pass in an invalid ID, the function returns the ID passed in. In Lightning Experience, the function converts any 15-character ID.
    CASESAFEID,
    /// Rounds a number up to the nearest integer, away from zero if negative.
    CEILING,
    /// Compares two arguments of text and returns TRUE if the first argument contains the second argument. If not, returns FALSE.
    CONTAINS,
    /// Returns the conversion rate to the corporate currency for the given currency ISO code. If the currency is invalid, returns 1.0.
    CURRENCYRATE,
    /// Returns a date value from the year, month, and day values you enter. Salesforce displays an error on the detail page if the value of the DATE function in a formula field is an invalid date, such as February 29 in a non-leap year.
    DATE,
    /// Returns a date value for a date/time or text expression.
    DATEVALUE,
    /// Returns a year, month, day, and GMT time value.
    DATETIMEVALUE,
    /// Returns a day of the month in the form of a number from 1 through 31.
    DAY,
    /// Calculates the distance between two locations in miles or kilometers.
    DISTANCE,
    /// Returns a value for e raised to the power of a number you specify.
    EXP,
    /// Returns the position of a string within a string of text represented as a number.
    FIND,
    /// Returns a number rounded down to the nearest integer, towards zero if negative.
    FLOOR,
    /// Returns a geolocation based on the provided latitude and longitude. Must be used with the DISTANCE function.
    GEOLOCATION,
    /// Returns an array of strings in the form of record IDs for the selected records in a list, such as a list view or related list.
    GETRECORDIDS,
    /// Returns the user’s session ID.
    GETSESSIONID,
    /// Returns the local time hour value without the date in the form of a number from 1 through 24.
    HOUR,
    /// Encodes text and merge field values for use in HTML by replacing characters that are reserved in HTML, such as the greater-than sign (>), with HTML entity equivalents, such as &gt;.
    HTMLENCODE,
    /// Creates a link to a URL specified that is linkable from the text specified.
    HYPERLINK,
    /// Determines if expressions are true or false. Returns a given value if true and another value if false.
    IF,
    /// Inserts an image with alternate text and height and width specifications.
    IMAGE,
    /// Securely retrieves external images and prevents unauthorized requests for user credentials.
    IMAGEPROXYURL,
    /// Returns content from an s-control snippet. Use this function to reuse common code in many s-controls.
    INCLUDE,
    /// Determines if any value selected in a multi-select picklist field equals a text literal you specify.
    INCLUDES,
    /// Determines if an expression has a value and returns TRUE if it does not. If it contains a value, this function returns FALSE.
    ISBLANK,
    /// Compares the value of a field to the previous value and returns TRUE if the values are different. If the values are the same, this function returns FALSE.
    ISCHANGED,
    /// Checks if the record is a clone of another record and returns TRUE if one item is a clone. Otherwise, returns FALSE.
    ISCLONE,
    /// Checks if the formula is running during the creation of a new record and returns TRUE if it is. If an existing record is being updated, this function returns FALSE.
    ISNEW,
    /// Determines if an expression is null (blank) and returns TRUE if it is. If it contains a value, this function returns FALSE.
    ISNULL,
    /// Determines if a text value is a number and returns TRUE if it is. Otherwise, returns FALSE.
    ISNUMBER,
    /// Determines if the value of a picklist field is equal to a text literal you specify.
    ISPICKVAL,
    /// Encodes text and merge field values for use in JavaScript by inserting escape characters, such as a backslash (\), before unsafe JavaScript characters, such as the apostrophe (').
    JSENCODE,
    /// Encodes text and merge field values for use in JavaScript inside HTML tags by replacing characters that are reserved in HTML with HTML entity equivalents and inserting escape characters before unsafe JavaScript characters.
    JSINHTMLENCODE,
    /// Returns a JunctionIDList based on the provided IDs.
    JUNCTIONIDLIST,
    /// Returns the specified number of characters from the beginning of a text string.
    LEFT,
    /// Returns the number of characters in a specified text string.
    LEN,
    /// Returns a relative URL in the form of a link (href and anchor tags) for a custom s-control or Salesforce page.
    LINKTO,
    /// Returns the natural logarithm of a specified number. Natural logarithms are based on the constant e value of 2.71828182845904.
    LN,
    /// Returns the base 10 logarithm of a number.
    LOG,
    /// Converts all letters in the specified text string to lowercase. Any characters that are not letters are unaffected by this function. Locale rules are applied if a locale is provided.
    LOWER,
    /// Inserts characters you specify to the left-side of a text string.
    LPAD,
    /// Returns the highest number from a list of numbers.
    MAX,
    /// Rounds a number up to the nearest integer, towards zero if negative.
    MCEILING,
    /// Rounds a number down to the nearest integer, away from zero if negative.
    MFLOOR,
    /// Returns the specified number of characters from the middle of a text string given the starting position.
    MID,
    /// Returns a milliseconds value in the form of a number from 0 through 999.
    MILLISECOND,
    /// Returns the lowest number from a list of numbers.
    MIN,
    /// Returns a minute value in the form of a number from 0 through 60.
    MINUTE,
    /// Returns a remainder after a number is divided by a specified divisor.
    MOD,
    /// Returns the month, a number from 1 (January) through 12 (December) in number format of a given date.
    MONTH,
    /// Returns FALSE for TRUE and TRUE for FALSE.
    NOT,
    /// Returns a date/time representing the current moment.
    NOW,
    /// Determines if an expression is null (blank) and returns a substitute expression if it is. If the expression is not blank, returns value of the expression.
    NULLVALUE,
    /// Determines if expressions are true or false. Returns TRUE if any expression is true. Returns FALSE if all expressions are false.
    OR,
    /// This function returns the value of a specified parent grouping. A “parent” grouping is any level above the one containing the formula.
    PARENTGROUPVAL,
    /// Returns an Einstein Discovery prediction for a record based on the specified record ID or for a list of fields and their values.
    PREDICT,
    /// This function returns the value of a specified previous grouping. A “previous” grouping is one that comes before the current grouping in the report.
    PREVGROUPVAL,
    /// Returns the previous value of a field.
    PRIORVALUE,
    /// Compares a text field to a regular expression and returns TRUE if there is a match. Otherwise, returns FALSE.
    REGEX,
    /// Returns a script tag with URL source that you specify. Use this function when referencing the Lightning Platform AJAX Toolkit or other JavaScript toolkits.
    REQUIRESCRIPT,
    /// Returns the characters of a source text string in reverse order.
    REVERSE,
    /// Returns the specified number of characters from the end of a text string.
    RIGHT,
    /// Returns the nearest number to a number you specify, constraining the new number by a specified number of digits.
    ROUND,
    /// Inserts characters that you specify to the right-side of a text string.
    RPAD,
    /// Returns a seconds value in the form of a number from 0 through 60.
    SECOND,
    /// Returns the positive square root of a given number.
    SQRT,
    /// Substitutes new text for old text in a text string.
    SUBSTITUTE,
    /// Converts a percent, number, date, date/time, or currency type field into text anywhere formulas are used. Also, converts picklist values to text in approval rules, approval step rules, workflow rules, escalation rules, assignment rules, auto-response rules, validation rules, formula fields, field updates, and custom buttons and links.
    TEXT,
    /// Returns a time value in GMT representing the current moment. Use this function instead of the NOW function if you only want to track time, without a date.
    TIMENOW,
    /// Returns the time value without the date, such as business hours.
    TIMEVALUE,
    /// Returns the current date as a date data type.
    TODAY,
    /// Removes the spaces and tabs from the beginning and end of a text string.
    TRIM,
    /// Converts all letters in the specified text string to uppercase.
    UPPER,
    /// Encodes text and merge field values for use in URLs by replacing characters that are illegal in URLs, such as blank spaces, with the code that represent those characters as defined in RFC 3986, Uniform Resource Identifier (URI): Generic Syntax.
    URLENCODE,
    /// Returns a URL for an action, an s-control, a Visualforce page, or a file in a static resource archive. URLFOR is available for use in custom buttons and links, s-controls, and Visualforce pages.
    URLFOR,
    /// Converts a text string to a number.
    VALUE,
    /// Returns a value by looking up a related value on a custom object similar to the VLOOKUP() Excel function. This function is only available in validation rules.
    VLOOKUP,
    /// Returns the day of the week for the given date, using 1 for Sunday, 2 for Monday, through 7 for Saturday.
    WEEKDAY,
    /// Returns the four-digit year in number format of a given date.
    YEAR,
}

/// The name of a function as it is written in upper case.
pub open spec fn function_name_text(f: FunctionName) -> Seq<char> {
    match f {
            FunctionName::ABS => "ABS"@,
            FunctionName::ADDMONTHS => "ADDMONTHS"@,
            FunctionName::AND => "AND"@,
            FunctionName::BEGINS => "BEGINS"@,
            FunctionName::BLANKVALUE => "BLANKVALUE"@,
            FunctionName::BR => "BR"@,
            FunctionName::CASE => "CASE"@,
            FunctionName::CASESAFEID => "CASESAFEID"@,
            FunctionName::CEILING => "CEILING"@,
            FunctionName::CONTAINS => "CONTAINS"@,
            FunctionName::CURRENCYRATE => "CURRENCYRATE"@,
            FunctionName::DATE => "DATE"@,
            FunctionName::DATEVALUE => "DATEVALUE"@,
            FunctionName::DATETIMEVALUE => "DATETIMEVALUE"@,
            FunctionName::DAY => "DAY"@,
            FunctionName::DISTANCE => "DISTANCE"@,
            FunctionName::EXP => "EXP"@,
            FunctionName::FIND => "FIND"@,
            FunctionName::FLOOR => "FLOOR"@,
            FunctionName::GEOLOCATION => "GEOLOCATION"@,
            FunctionName::GETRECORDIDS => "GETRECORDIDS"@,
            FunctionName::GETSESSIONID => "GETSESSIONID"@,
            FunctionName::HOUR => "HOUR"@,
            FunctionName::HTMLENCODE => "HTMLENCODE"@,
            FunctionName::HYPERLINK => "HYPERLINK"@,
            FunctionName::IF => "IF"@,
            FunctionName::IMAGE => "IMAGE"@,
            FunctionName::IMAGEPROXYURL => "IMAGEPROXYURL"@,
            FunctionName::INCLUDE => "INCLUDE"@,
            FunctionName::INCLUDES => "INCLUDES"@,
            FunctionName::ISBLANK => "ISBLANK"@,
            FunctionName::ISCHANGED => "ISCHANGED"@,
            FunctionName::ISCLONE => "ISCLONE"@,
            FunctionName::ISNEW => "ISNEW"@,
            FunctionName::ISNULL => "ISNULL"@,
            FunctionName::ISNUMBER => "ISNUMBER"@,
            FunctionName::ISPICKVAL => "ISPICKVAL"@,
            FunctionName::JSENCODE => "JSENCODE"@,
            FunctionName::JSINHTMLENCODE => "JSINHTMLENCODE"@,
            FunctionName::JUNCTIONIDLIST => "JUNCTIONIDLIST"@,
            FunctionName::LEFT => "LEFT"@,
            FunctionName::LEN => "LEN"@,
            FunctionName::LINKTO => "LINKTO"@,
            FunctionName::LN => "LN"@,
            FunctionName::LOG => "LOG"@,
            FunctionName::LOWER => "LOWER"@,
            FunctionName::LPAD => "LPAD"@,
            FunctionName::MAX => "MAX"@,
            FunctionName::MCEILING => "MCEILING"@,
            FunctionName::MFLOOR => "MFLOOR"@,
            FunctionName::MID => "MID"@,
            FunctionName::MILLISECOND => "MILLISECOND"@,
            FunctionName::MIN => "MIN"@,
            FunctionName::MINUTE => "MINUTE"@,
            FunctionName::MOD => "MOD"@,
            FunctionName::MONTH => "MONTH"@,
            FunctionName::NOT => "NOT"@,
            FunctionName::NOW => "NOW"@,
            FunctionName::NULLVALUE => "NULLVALUE"@,
            FunctionName::OR => "OR"@,
            FunctionName::PARENTGROUPVAL => "PARENTGROUPVAL"@,
            FunctionName::PREDICT => "PREDICT"@,
            FunctionName::PREVGROUPVAL => "PREVGROUPVAL"@,
            FunctionName::PRIORVALUE => "PRIORVALUE"@,
            FunctionName::REGEX => "REGEX"@,
            FunctionName::REQUIRESCRIPT => "REQUIRESCRIPT"@,
            FunctionName::REVERSE => "REVERSE"@,
            FunctionName::RIGHT => "RIGHT"@,
            FunctionName::ROUND => "ROUND"@,
            FunctionName::RPAD => "RPAD"@,
            FunctionName::SECOND => "SECOND"@,
            FunctionName::SQRT => "SQRT"@,
            FunctionName::SUBSTITUTE => "SUBSTITUTE"@,
            FunctionName::TEXT => "TEXT"@,
            FunctionName::TIMENOW => "TIMENOW"@,
            FunctionName::TIMEVALUE => "TIMEVALUE"@,
            FunctionName::TODAY => "TODAY"@,
            FunctionName::TRIM => "TRIM"@,
            FunctionName::UPPER => "UPPER"@,
            FunctionName::URLENCODE => "URLENCODE"@,
            FunctionName::URLFOR => "URLFOR"@,
            FunctionName::VALUE => "VALUE"@,
            FunctionName::VLOOKUP => "VLOOKUP"@,
            FunctionName::WEEKDAY => "WEEKDAY"@,
            FunctionName::YEAR => "YEAR"@,
    }
}

/// The documentation text of a function.
pub open spec fn function_description(f: FunctionName) -> Seq<char> {
    match f {
            FunctionName::ABS => "Calculates the absolute value of a number. The absolute value of a number is the number without its positive or negative sign."@,
            FunctionName::ADDMONTHS => "Returns the date that is the indicated number of months before or after a specified date. If the specified date is the last day of the month, the resulting date is the last day of the resulting month. Otherwise, the result has the same date component as the specified date."@,
            FunctionName::AND => "Returns a TRUE response if all values are true; returns a FALSE response if one or more values are false."@,
            FunctionName::BEGINS => "Determines if text begins with specific characters and returns TRUE if it does. Returns FALSE if it doesn't."@,
            FunctionName::BLANKVALUE => "Determines if an expression has a value and returns a substitute expression if it doesn’t. If the expression has a value, returns the value of the expression."@,
            FunctionName::BR => "Inserts a line break in a string of text."@,
            FunctionName::CASE => "Checks a given expression against a series of values. If the expression is equal to a value, returns the corresponding result. If it isn't equal to any of the values, returns the else_result."@,
            FunctionName::CASESAFEID => "Converts a 15-character ID to a case-insensitive 18-character ID. In Salesforce Classic, the function converts only valid Salesforce 15-character IDs. If you pass in an invalid ID, the function returns the ID passed in. In Lightning Experience, the function converts any 15-character ID."@,
            FunctionName::CEILING => "Rounds a number up to the nearest integer, away from zero if negative."@,
            FunctionName::CONTAINS => "Compares two arguments of text and returns TRUE if the first argument contains the second argument. If not, returns FALSE."@,
            FunctionName::CURRENCYRATE => "Returns the conversion rate to the corporate currency for the given currency ISO code. If the currency is invalid, returns 1.0."@,
            FunctionName::DATE => "Returns a date value from the year, month, and day values you enter. Salesforce displays an error on the detail page if the value of the DATE function in a formula field is an invalid date, such as February 29 in a non-leap year."@,
            FunctionName::DATEVALUE => "Returns a date value for a date/time or text expression."@,
            FunctionName::DATETIMEVALUE => "Returns a year, month, day, and GMT time value."@,
            FunctionName::DAY => "Returns a day of the month in the form of a number from 1 through 31."@,
            FunctionName::DISTANCE => "Calculates the distance between two locations in miles or kilometers."@,
            FunctionName::EXP => "Returns a value for e raised to the power of a number you specify."@,
            FunctionName::FIND => "Returns the position of a string within a string of text represented as a number."@,
            FunctionName::FLOOR => "Returns a number rounded down to the nearest integer, towards zero if negative."@,
            FunctionName::GEOLOCATION => "Returns a geolocation based on the provided latitude and longitude. Must be used with the DISTANCE function."@,
            FunctionName::GETRECORDIDS => "Returns an array of strings in the form of record IDs for the selected records in a list, such as a list view or related list."@,
            FunctionName::GETSESSIONID => "Returns the user’s session ID."@,
            FunctionName::HOUR => "Returns the local time hour value without the date in the form of a number from 1 through 24."@,
            FunctionName::HTMLENCODE => "Encodes text and merge field values for use in HTML by replacing characters that are reserved in HTML, such as the greater-than sign (>), with HTML entity equivalents, such as &gt;."@,
            FunctionName::HYPERLINK => "Creates a link to a URL specified that is linkable from the text specified."@,
            FunctionName::IF => "Determines if expressions are true or false. Returns a given value if true and another value if false."@,
            FunctionName::IMAGE => "Inserts an image with alternate text and height and width specifications."@,
            FunctionName::IMAGEPROXYURL => "Securely retrieves external images and prevents unauthorized requests for user credentials."@,
            FunctionName::INCLUDE => "Returns content from an s-control snippet. Use this function to reuse common code in many s-controls."@,
            FunctionName::INCLUDES => "Determines if any value selected in a multi-select picklist field equals a text literal you specify."@,
            FunctionName::ISBLANK => "Determines if an expression has a value and returns TRUE if it does not. If it contains a value, this function returns FALSE."@,
            FunctionName::ISCHANGED => "Compares the value of a field to the previous value and returns TRUE if the values are different. If the values are the same, this function returns FALSE."@,
            FunctionName::ISCLONE => "Checks if the record is a clone of another record and returns TRUE if one item is a clone. Otherwise, returns FALSE."@,
            FunctionName::ISNEW => "Checks if the formula is running during the creation of a new record and returns TRUE if it is. If an existing record is being updated, this function returns FALSE."@,
            FunctionName::ISNULL => "Determines if an expression is null (blank) and returns TRUE if it is. If it contains a value, this function returns FALSE."@,
            FunctionName::ISNUMBER => "Determines if a text value is a number and returns TRUE if it is. Otherwise, returns FALSE."@,
            FunctionName::ISPICKVAL => "Determines if the value of a picklist field is equal to a text literal you specify."@,
            FunctionName::JSENCODE => "Encodes text and merge field values for use in JavaScript by inserting escape characters, such as a backslash (\\), before unsafe JavaScript characters, such as the apostrophe (')."@,
            FunctionName::JSINHTMLENCODE => "Encodes text and merge field values for use in JavaScript inside HTML tags by replacing characters that are reserved in HTML with HTML entity equivalents and inserting escape characters before unsafe JavaScript characters."@,
            FunctionName::JUNCTIONIDLIST => "Returns a JunctionIDList based on the provided IDs."@,
            FunctionName::LEFT => "Returns the specified number of characters from the beginning of a text string."@,
            FunctionName::LEN => "Returns the number of characters in a specified text string."@,
            FunctionName::LINKTO => "Returns a relative URL in the form of a link (href and anchor tags) for a custom s-control or Salesforce page."@,
            FunctionName::LN => "Returns the natural logarithm of a specified number. Natural logarithms are based on the constant e value of 2.71828182845904."@,
            FunctionName::LOG => "Returns the base 10 logarithm of a number."@,
            FunctionName::LOWER => "Converts all letters in the specified text string to lowercase. Any characters that are not letters are unaffected by this function. Locale rules are applied if a locale is provided."@,
            FunctionName::LPAD => "Inserts characters you specify to the left-side of a text string."@,
            FunctionName::MAX => "Returns the highest number from a list of numbers."@,
            FunctionName::MCEILING => "Rounds a number up to the nearest integer, towards zero if negative."@,
            FunctionName::MFLOOR => "Rounds a number down to the nearest integer, away from zero if negative."@,
            FunctionName::MID => "Returns the specified number of characters from the middle of a text string given the starting position."@,
            FunctionName::MILLISECOND => "Returns a milliseconds value in the form of a number from 0 through 999."@,
            FunctionName::MIN => "Returns the lowest number from a list of numbers."@,
            FunctionName::MINUTE => "Returns a minute value in the form of a number from 0 through 60."@,
            FunctionName::MOD => "Returns a remainder after a number is divided by a specified divisor."@,
            FunctionName::MONTH => "Returns the month, a number from 1 (January) through 12 (December) in number format of a given date."@,
            FunctionName::NOT => "Returns FALSE for TRUE and TRUE for FALSE."@,
            FunctionName::NOW => "Returns a date/time representing the current moment."@,
            FunctionName::NULLVALUE => "Determines if an expression is null (blank) and returns a substitute expression if it is. If the expression is not blank, returns value of the expression."@,
            FunctionName::OR => "Determines if expressions are true or false. Returns TRUE if any expression is true. Returns FALSE if all expressions are false."@,
            FunctionName::PARENTGROUPVAL => "This function returns the value of a specified parent grouping. A “parent” grouping is any level above the one containing the formula."@,
            FunctionName::PREDICT => "Returns an Einstein Discovery prediction for a record based on the specified record ID or for a list of fields and their values."@,
            FunctionName::PREVGROUPVAL => "This function returns the value of a specified previous grouping. A “previous” grouping is one that comes before the current grouping in the report."@,
            FunctionName::PRIORVALUE => "Returns the previous value of a field."@,
            FunctionName::REGEX => "Compares a text field to a regular expression and returns TRUE if there is a match. Otherwise, returns FALSE."@,
            FunctionName::REQUIRESCRIPT => "Returns a script tag with URL source that you specify. Use this function when referencing the Lightning Platform AJAX Toolkit or other JavaScript toolkits."@,
            FunctionName::REVERSE => "Returns the characters of a source text string in reverse order."@,
            FunctionName::RIGHT => "Returns the specified number of characters from the end of a text string."@,
            FunctionName::ROUND => "Returns the nearest number to a number you specify, constraining the new number by a specified number of digits."@,
            FunctionName::RPAD => "Inserts characters that you specify to the right-side of a text string."@,
            FunctionName::SECOND => "Returns a seconds value in the form of a number from 0 through 60."@,
            FunctionName::SQRT => "Returns the positive square root of a given number."@,
            FunctionName::SUBSTITUTE => "Substitutes new text for old text in a text string."@,
            FunctionName::TEXT => "Converts a percent, number, date, date/time, or currency type field into text anywhere formulas are used. Also, converts picklist values to text in approval rules, approval step rules, workflow rules, escalation rules, assignment rules, auto-response rules, validation rules, formula fields, field updates, and custom buttons and links."@,
            FunctionName::TIMENOW => "Returns a time value in GMT representing the current moment. Use this function instead of the NOW function if you only want to track time, without a date."@,
            FunctionName::TIMEVALUE => "Returns the time value without the date, such as business hours."@,
            FunctionName::TODAY => "Returns the current date as a date data type."@,
            FunctionName::TRIM => "Removes the spaces and tabs from the beginning and end of a text string."@,
            FunctionName::UPPER => "Converts all letters in the specified text string to uppercase."@,
            FunctionName::URLENCODE => "Encodes text and merge field values for use in URLs by replacing characters that are illegal in URLs, such as blank spaces, with the code that represent those characters as defined in RFC 3986, Uniform Resource Identifier (URI): Generic Syntax."@,
            FunctionName::URLFOR => "Returns a URL for an action, an s-control, a Visualforce page, or a file in a static resource archive. URLFOR is available for use in custom buttons and links, s-controls, and Visualforce pages."@,
            FunctionName::VALUE => "Converts a text string to a number."@,
            FunctionName::VLOOKUP => "Returns a value by looking up a related value on a custom object similar to the VLOOKUP() Excel function. This function is only available in validation rules."@,
            FunctionName::WEEKDAY => "Returns the day of the week for the given date, using 1 for Sunday, 2 for Monday, through 7 for Saturday."@,
            FunctionName::YEAR => "Returns the four-digit year in number format of a given date."@,
    }
}

/// Every function name, in declaration order.
/// The number of functions a formula may call.
pub const FUNCTION_COUNT: usize = 85;

/// The function at position `i` of the declaration order.
pub open spec fn function_name_at(i: int) -> FunctionName {
    if i == 0 {
        FunctionName::ABS
    } else     if i == 1 {
        FunctionName::ADDMONTHS
    } else     if i == 2 {
        FunctionName::AND
    } else     if i == 3 {
        FunctionName::BEGINS
    } else     if i == 4 {
        FunctionName::BLANKVALUE
    } else     if i == 5 {
        FunctionName::BR
    } else     if i == 6 {
        FunctionName::CASE
    } else     if i == 7 {
        FunctionName::CASESAFEID
    } else     if i == 8 {
        FunctionName::CEILING
    } else     if i == 9 {
        FunctionName::CONTAINS
    } else     if i == 10 {
        FunctionName::CURRENCYRATE
    } else     if i == 11 {
        FunctionName::DATE
    } else     if i == 12 {
        FunctionName::DATEVALUE
    } else     if i == 13 {
        FunctionName::DATETIMEVALUE
    } else     if i == 14 {
        FunctionName::DAY
    } else     if i == 15 {
        FunctionName::DISTANCE
    } else     if i == 16 {
        FunctionName::EXP
    } else     if i == 17 {
        FunctionName::FIND
    } else     if i == 18 {
        FunctionName::FLOOR
    } else     if i == 19 {
        FunctionName::GEOLOCATION
    } else     if i == 20 {
        FunctionName::GETRECORDIDS
    } else     if i == 21 {
        FunctionName::GETSESSIONID
    } else     if i == 22 {
        FunctionName::HOUR
    } else     if i == 23 {
        FunctionName::HTMLENCODE
    } else     if i == 24 {
        FunctionName::HYPERLINK
    } else     if i == 25 {
        FunctionName::IF
    } else     if i == 26 {
        FunctionName::IMAGE
    } else     if i == 27 {
        FunctionName::IMAGEPROXYURL
    } else     if i == 28 {
        FunctionName::INCLUDE
    } else     if i == 29 {
        FunctionName::INCLUDES
    } else     if i == 30 {
        FunctionName::ISBLANK
    } else     if i == 31 {
        FunctionName::ISCHANGED
    } else     if i == 32 {
        FunctionName::ISCLONE
    } else     if i == 33 {
        FunctionName::ISNEW
    } else     if i == 34 {
        FunctionName::ISNULL
    } else     if i == 35 {
        FunctionName::ISNUMBER
    } else     if i == 36 {
        FunctionName::ISPICKVAL
    } else     if i == 37 {
        FunctionName::JSENCODE
    } else     if i == 38 {
        FunctionName::JSINHTMLENCODE
    } else     if i == 39 {
        FunctionName::JUNCTIONIDLIST
    } else     if i == 40 {
        FunctionName::LEFT
    } else     if i == 41 {
        FunctionName::LEN
    } else     if i == 42 {
        FunctionName::LINKTO
    } else     if i == 43 {
        FunctionName::LN
    } else     if i == 44 {
        FunctionName::LOG
    } else     if i == 45 {
        FunctionName::LOWER
    } else     if i == 46 {
        FunctionName::LPAD
    } else     if i == 47 {
        FunctionName::MAX
    } else     if i == 48 {
        FunctionName::MCEILING
    } else     if i == 49 {
        FunctionName::MFLOOR
    } else     if i == 50 {
        FunctionName::MID
    } else     if i == 51 {
        FunctionName::MILLISECOND
    } else     if i == 52 {
        FunctionName::MIN
    } else     if i == 53 {
        FunctionName::MINUTE
    } else     if i == 54 {
        FunctionName::MOD
    } else     if i == 55 {
        FunctionName::MONTH
    } else     if i == 56 {
        FunctionName::NOT
    } else     if i == 57 {
        FunctionName::NOW
    } else     if i == 58 {
        FunctionName::NULLVALUE
    } else     if i == 59 {
        FunctionName::OR
    } else     if i == 60 {
        FunctionName::PARENTGROUPVAL
    } else     if i == 61 {
        FunctionName::PREDICT
    } else     if i == 62 {
        FunctionName::PREVGROUPVAL
    } else     if i == 63 {
        FunctionName::PRIORVALUE
    } else     if i == 64 {
        FunctionName::REGEX
    } else     if i == 65 {
        FunctionName::REQUIRESCRIPT
    } else     if i == 66 {
        FunctionName::REVERSE
    } else     if i == 67 {
        FunctionName::RIGHT
    } else     if i == 68 {
        FunctionName::ROUND
    } else     if i == 69 {
        FunctionName::RPAD
    } else     if i == 70 {
        FunctionName::SECOND
    } else     if i == 71 {
        FunctionName::SQRT
    } else     if i == 72 {
        FunctionName::SUBSTITUTE
    } else     if i == 73 {
        FunctionName::TEXT
    } else     if i == 74 {
        FunctionName::TIMENOW
    } else     if i == 75 {
        FunctionName::TIMEVALUE
    } else     if i == 76 {
        FunctionName::TODAY
    } else     if i == 77 {
        FunctionName::TRIM
    } else     if i == 78 {
        FunctionName::UPPER
    } else     if i == 79 {
        FunctionName::URLENCODE
    } else     if i == 80 {
        FunctionName::URLFOR
    } else     if i == 81 {
        FunctionName::VALUE
    } else     if i == 82 {
        FunctionName::VLOOKUP
    } else     if i == 83 {
        FunctionName::WEEKDAY
    } else {
        FunctionName::YEAR
    }
}

/// The position of a function in the declaration order.
pub open spec fn function_index(f: FunctionName) -> int {
    match f {
        FunctionName::ABS => 0,
        FunctionName::ADDMONTHS => 1,
        FunctionName::AND => 2,
        FunctionName::BEGINS => 3,
        FunctionName::BLANKVALUE => 4,
        FunctionName::BR => 5,
        FunctionName::CASE => 6,
        FunctionName::CASESAFEID => 7,
        FunctionName::CEILING => 8,
        FunctionName::CONTAINS => 9,
        FunctionName::CURRENCYRATE => 10,
        FunctionName::DATE => 11,
        FunctionName::DATEVALUE => 12,
        FunctionName::DATETIMEVALUE => 13,
        FunctionName::DAY => 14,
        FunctionName::DISTANCE => 15,
        FunctionName::EXP => 16,
        FunctionName::FIND => 17,
        FunctionName::FLOOR => 18,
        FunctionName::GEOLOCATION => 19,
        FunctionName::GETRECORDIDS => 20,
        FunctionName::GETSESSIONID => 21,
        FunctionName::HOUR => 22,
        FunctionName::HTMLENCODE => 23,
        FunctionName::HYPERLINK => 24,
        FunctionName::IF => 25,
        FunctionName::IMAGE => 26,
        FunctionName::IMAGEPROXYURL => 27,
        FunctionName::INCLUDE => 28,
        FunctionName::INCLUDES => 29,
        FunctionName::ISBLANK => 30,
        FunctionName::ISCHANGED => 31,
        FunctionName::ISCLONE => 32,
        FunctionName::ISNEW => 33,
        FunctionName::ISNULL => 34,
        FunctionName::ISNUMBER => 35,
        FunctionName::ISPICKVAL => 36,
        FunctionName::JSENCODE => 37,
        FunctionName::JSINHTMLENCODE => 38,
        FunctionName::JUNCTIONIDLIST => 39,
        FunctionName::LEFT => 40,
        FunctionName::LEN => 41,
        FunctionName::LINKTO => 42,
        FunctionName::LN => 43,
        FunctionName::LOG => 44,
        FunctionName::LOWER => 45,
        FunctionName::LPAD => 46,
        FunctionName::MAX => 47,
        FunctionName::MCEILING => 48,
        FunctionName::MFLOOR => 49,
        FunctionName::MID => 50,
        FunctionName::MILLISECOND => 51,
        FunctionName::MIN => 52,
        FunctionName::MINUTE => 53,
        FunctionName::MOD => 54,
        FunctionName::MONTH => 55,
        FunctionName::NOT => 56,
        FunctionName::NOW => 57,
        FunctionName::NULLVALUE => 58,
        FunctionName::OR => 59,
        FunctionName::PARENTGROUPVAL => 60,
        FunctionName::PREDICT => 61,
        FunctionName::PREVGROUPVAL => 62,
        FunctionName::PRIORVALUE => 63,
        FunctionName::REGEX => 64,
        FunctionName::REQUIRESCRIPT => 65,
        FunctionName::REVERSE => 66,
        FunctionName::RIGHT => 67,
        FunctionName::ROUND => 68,
        FunctionName::RPAD => 69,
        FunctionName::SECOND => 70,
        FunctionName::SQRT => 71,
        FunctionName::SUBSTITUTE => 72,
        FunctionName::TEXT => 73,
        FunctionName::TIMENOW => 74,
        FunctionName::TIMEVALUE => 75,
        FunctionName::TODAY => 76,
        FunctionName::TRIM => 77,
        FunctionName::UPPER => 78,
        FunctionName::URLENCODE => 79,
        FunctionName::URLFOR => 80,
        FunctionName::VALUE => 81,
        FunctionName::VLOOKUP => 82,
        FunctionName::WEEKDAY => 83,
        FunctionName::YEAR => 84,
    }
}

/// Every function name, in declaration order.
pub open spec fn all_function_names() -> Seq<FunctionName> {
    Seq::new(FUNCTION_COUNT as nat, |i: int| function_name_at(i))
}

pub(crate) fn name_at(i: usize) -> (f: FunctionName)
    requires
        i < FUNCTION_COUNT,
    ensures
        f == function_name_at(i as int),
{
    match i {
        0 => FunctionName::ABS,
        1 => FunctionName::ADDMONTHS,
        2 => FunctionName::AND,
        3 => FunctionName::BEGINS,
        4 => FunctionName::BLANKVALUE,
        5 => FunctionName::BR,
        6 => FunctionName::CASE,
        7 => FunctionName::CASESAFEID,
        8 => FunctionName::CEILING,
        9 => FunctionName::CONTAINS,
        10 => FunctionName::CURRENCYRATE,
        11 => FunctionName::DATE,
        12 => FunctionName::DATEVALUE,
        13 => FunctionName::DATETIMEVALUE,
        14 => FunctionName::DAY,
        15 => FunctionName::DISTANCE,
        16 => FunctionName::EXP,
        17 => FunctionName::FIND,
        18 => FunctionName::FLOOR,
        19 => FunctionName::GEOLOCATION,
        20 => FunctionName::GETRECORDIDS,
        21 => FunctionName::GETSESSIONID,
        22 => FunctionName::HOUR,
        23 => FunctionName::HTMLENCODE,
        24 => FunctionName::HYPERLINK,
        25 => FunctionName::IF,
        26 => FunctionName::IMAGE,
        27 => FunctionName::IMAGEPROXYURL,
        28 => FunctionName::INCLUDE,
        29 => FunctionName::INCLUDES,
        30 => FunctionName::ISBLANK,
        31 => FunctionName::ISCHANGED,
        32 => FunctionName::ISCLONE,
        33 => FunctionName::ISNEW,
        34 => FunctionName::ISNULL,
        35 => FunctionName::ISNUMBER,
        36 => FunctionName::ISPICKVAL,
        37 => FunctionName::JSENCODE,
        38 => FunctionName::JSINHTMLENCODE,
        39 => FunctionName::JUNCTIONIDLIST,
        40 => FunctionName::LEFT,
        41 => FunctionName::LEN,
        42 => FunctionName::LINKTO,
        43 => FunctionName::LN,
        44 => FunctionName::LOG,
        45 => FunctionName::LOWER,
        46 => FunctionName::LPAD,
        47 => FunctionName::MAX,
        48 => FunctionName::MCEILING,
        49 => FunctionName::MFLOOR,
        50 => FunctionName::MID,
        51 => FunctionName::MILLISECOND,
        52 => FunctionName::MIN,
        53 => FunctionName::MINUTE,
        54 => FunctionName::MOD,
        55 => FunctionName::MONTH,
        56 => FunctionName::NOT,
        57 => FunctionName::NOW,
        58 => FunctionName::NULLVALUE,
        59 => FunctionName::OR,
        60 => FunctionName::PARENTGROUPVAL,
        61 => FunctionName::PREDICT,
        62 => FunctionName::PREVGROUPVAL,
        63 => FunctionName::PRIORVALUE,
        64 => FunctionName::REGEX,
        65 => FunctionName::REQUIRESCRIPT,
        66 => FunctionName::REVERSE,
        67 => FunctionName::RIGHT,
        68 => FunctionName::ROUND,
        69 => FunctionName::RPAD,
        70 => FunctionName::SECOND,
        71 => FunctionName::SQRT,
        72 => FunctionName::SUBSTITUTE,
        73 => FunctionName::TEXT,
        74 => FunctionName::TIMENOW,
        75 => FunctionName::TIMEVALUE,
        76 => FunctionName::TODAY,
        77 => FunctionName::TRIM,
        78 => FunctionName::UPPER,
        79 => FunctionName::URLENCODE,
        80 => FunctionName::URLFOR,
        81 => FunctionName::VALUE,
        82 => FunctionName::VLOOKUP,
        83 => FunctionName::WEEKDAY,
        _ => FunctionName::YEAR,
    }
}

impl FunctionName {
    /// The upper-case name of the function.
    pub fn as_str(&self) -> (r: &'static str)
        ensures
            r@ == function_name_text(*self),
    {
        match self {
            FunctionName::ABS => "ABS",
            FunctionName::ADDMONTHS => "ADDMONTHS",
            FunctionName::AND => "AND",
            FunctionName::BEGINS => "BEGINS",
            FunctionName::BLANKVALUE => "BLANKVALUE",
            FunctionName::BR => "BR",
            FunctionName::CASE => "CASE",
            FunctionName::CASESAFEID => "CASESAFEID",
            FunctionName::CEILING => "CEILING",
            FunctionName::CONTAINS => "CONTAINS",
            FunctionName::CURRENCYRATE => "CURRENCYRATE",
            FunctionName::DATE => "DATE",
            FunctionName::DATEVALUE => "DATEVALUE",
            FunctionName::DATETIMEVALUE => "DATETIMEVALUE",
            FunctionName::DAY => "DAY",
            FunctionName::DISTANCE => "DISTANCE",
            FunctionName::EXP => "EXP",
            FunctionName::FIND => "FIND",
            FunctionName::FLOOR => "FLOOR",
            FunctionName::GEOLOCATION => "GEOLOCATION",
            FunctionName::GETRECORDIDS => "GETRECORDIDS",
            FunctionName::GETSESSIONID => "GETSESSIONID",
            FunctionName::HOUR => "HOUR",
            FunctionName::HTMLENCODE => "HTMLENCODE",
            FunctionName::HYPERLINK => "HYPERLINK",
            FunctionName::IF => "IF",
            FunctionName::IMAGE => "IMAGE",
            FunctionName::IMAGEPROXYURL => "IMAGEPROXYURL",
            FunctionName::INCLUDE => "INCLUDE",
            FunctionName::INCLUDES => "INCLUDES",
            FunctionName::ISBLANK => "ISBLANK",
            FunctionName::ISCHANGED => "ISCHANGED",
            FunctionName::ISCLONE => "ISCLONE",
            FunctionName::ISNEW => "ISNEW",
            FunctionName::ISNULL => "ISNULL",
            FunctionName::ISNUMBER => "ISNUMBER",
            FunctionName::ISPICKVAL => "ISPICKVAL",
            FunctionName::JSENCODE => "JSENCODE",
            FunctionName::JSINHTMLENCODE => "JSINHTMLENCODE",
            FunctionName::JUNCTIONIDLIST => "JUNCTIONIDLIST",
            FunctionName::LEFT => "LEFT",
            FunctionName::LEN => "LEN",
            FunctionName::LINKTO => "LINKTO",
            FunctionName::LN => "LN",
            FunctionName::LOG => "LOG",
            FunctionName::LOWER => "LOWER",
            FunctionName::LPAD => "LPAD",
            FunctionName::MAX => "MAX",
            FunctionName::MCEILING => "MCEILING",
            FunctionName::MFLOOR => "MFLOOR",
            FunctionName::MID => "MID",
            FunctionName::MILLISECOND => "MILLISECOND",
            FunctionName::MIN => "MIN",
            FunctionName::MINUTE => "MINUTE",
            FunctionName::MOD => "MOD",
            FunctionName::MONTH => "MONTH",
            FunctionName::NOT => "NOT",
            FunctionName::NOW => "NOW",
            FunctionName::NULLVALUE => "NULLVALUE",
            FunctionName::OR => "OR",
            FunctionName::PARENTGROUPVAL => "PARENTGROUPVAL",
            FunctionName::PREDICT => "PREDICT",
            FunctionName::PREVGROUPVAL => "PREVGROUPVAL",
            FunctionName::PRIORVALUE => "PRIORVALUE",
            FunctionName::REGEX => "REGEX",
            FunctionName::REQUIRESCRIPT => "REQUIRESCRIPT",
            FunctionName::REVERSE => "REVERSE",
            FunctionName::RIGHT => "RIGHT",
            FunctionName::ROUND => "ROUND",
            FunctionName::RPAD => "RPAD",
            FunctionName::SECOND => "SECOND",
            FunctionName::SQRT => "SQRT",
            FunctionName::SUBSTITUTE => "SUBSTITUTE",
            FunctionName::TEXT => "TEXT",
            FunctionName::TIMENOW => "TIMENOW",
            FunctionName::TIMEVALUE => "TIMEVALUE",
            FunctionName::TODAY => "TODAY",
            FunctionName::TRIM => "TRIM",
            FunctionName::UPPER => "UPPER",
            FunctionName::URLENCODE => "URLENCODE",
            FunctionName::URLFOR => "URLFOR",
            FunctionName::VALUE => "VALUE",
            FunctionName::VLOOKUP => "VLOOKUP",
            FunctionName::WEEKDAY => "WEEKDAY",
            FunctionName::YEAR => "YEAR",
        }
    }

    /// A one-paragraph description of what the function does.
    pub fn description(&self) -> (r: Option<&'static str>)
        ensures
            r matches Some(d) && d@ == function_description(*self),
    {
        let d = match self {
            FunctionName::ABS => "Calculates the absolute value of a number. The absolute value of a number is the number without its positive or negative sign.",
            FunctionName::ADDMONTHS => "Returns the date that is the indicated number of months before or after a specified date. If the specified date is the last day of the month, the resulting date is the last day of the resulting month. Otherwise, the result has the same date component as the specified date.",
            FunctionName::AND => "Returns a TRUE response if all values are true; returns a FALSE response if one or more values are false.",
            FunctionName::BEGINS => "Determines if text begins with specific characters and returns TRUE if it does. Returns FALSE if it doesn't.",
            FunctionName::BLANKVALUE => "Determines if an expression has a value and returns a substitute expression if it doesn’t. If the expression has a value, returns the value of the expression.",
            FunctionName::BR => "Inserts a line break in a string of text.",
            FunctionName::CASE => "Checks a given expression against a series of values. If the expression is equal to a value, returns the corresponding result. If it isn't equal to any of the values, returns the else_result.",
            FunctionName::CASESAFEID => "Converts a 15-character ID to a case-insensitive 18-character ID. In Salesforce Classic, the function converts only valid Salesforce 15-character IDs. If you pass in an invalid ID, the function returns the ID passed in. In Lightning Experience, the function converts any 15-character ID.",
            FunctionName::CEILING => "Rounds a number up to the nearest integer, away from zero if negative.",
            FunctionName::CONTAINS => "Compares two arguments of text and returns TRUE if the first argument contains the second argument. If not, returns FALSE.",
            FunctionName::CURRENCYRATE => "Returns the conversion rate to the corporate currency for the given currency ISO code. If the currency is invalid, returns 1.0.",
            FunctionName::DATE => "Returns a date value from the year, month, and day values you enter. Salesforce displays an error on the detail page if the value of the DATE function in a formula field is an invalid date, such as February 29 in a non-leap year.",
            FunctionName::DATEVALUE => "Returns a date value for a date/time or text expression.",
            FunctionName::DATETIMEVALUE => "Returns a year, month, day, and GMT time value.",
            FunctionName::DAY => "Returns a day of the month in the form of a number from 1 through 31.",
            FunctionName::DISTANCE => "Calculates the distance between two locations in miles or kilometers.",
            FunctionName::EXP => "Returns a value for e raised to the power of a number you specify.",
            FunctionName::FIND => "Returns the position of a string within a string of text represented as a number.",
            FunctionName::FLOOR => "Returns a number rounded down to the nearest integer, towards zero if negative.",
            FunctionName::GEOLOCATION => "Returns a geolocation based on the provided latitude and longitude. Must be used with the DISTANCE function.",
            FunctionName::GETRECORDIDS => "Returns an array of strings in the form of record IDs for the selected records in a list, such as a list view or related list.",
            FunctionName::GETSESSIONID => "Returns the user’s session ID.",
            FunctionName::HOUR => "Returns the local time hour value without the date in the form of a number from 1 through 24.",
            FunctionName::HTMLENCODE => "Encodes text and merge field values for use in HTML by replacing characters that are reserved in HTML, such as the greater-than sign (>), with HTML entity equivalents, such as &gt;.",
            FunctionName::HYPERLINK => "Creates a link to a URL specified that is linkable from the text specified.",
            FunctionName::IF => "Determines if expressions are true or false. Returns a given value if true and another value if false.",
            FunctionName::IMAGE => "Inserts an image with alternate text and height and width specifications.",
            FunctionName::IMAGEPROXYURL => "Securely retrieves external images and prevents unauthorized requests for user credentials.",
            FunctionName::INCLUDE => "Returns content from an s-control snippet. Use this function to reuse common code in many s-controls.",
            FunctionName::INCLUDES => "Determines if any value selected in a multi-select picklist field equals a text literal you specify.",
            FunctionName::ISBLANK => "Determines if an expression has a value and returns TRUE if it does not. If it contains a value, this function returns FALSE.",
            FunctionName::ISCHANGED => "Compares the value of a field to the previous value and returns TRUE if the values are different. If the values are the same, this function returns FALSE.",
            FunctionName::ISCLONE => "Checks if the record is a clone of another record and returns TRUE if one item is a clone. Otherwise, returns FALSE.",
            FunctionName::ISNEW => "Checks if the formula is running during the creation of a new record and returns TRUE if it is. If an existing record is being updated, this function returns FALSE.",
            FunctionName::ISNULL => "Determines if an expression is null (blank) and returns TRUE if it is. If it contains a value, this function returns FALSE.",
            FunctionName::ISNUMBER => "Determines if a text value is a number and returns TRUE if it is. Otherwise, returns FALSE.",
            FunctionName::ISPICKVAL => "Determines if the value of a picklist field is equal to a text literal you specify.",
            FunctionName::JSENCODE => "Encodes text and merge field values for use in JavaScript by inserting escape characters, such as a backslash (\\), before unsafe JavaScript characters, such as the apostrophe (').",
            FunctionName::JSINHTMLENCODE => "Encodes text and merge field values for use in JavaScript inside HTML tags by replacing characters that are reserved in HTML with HTML entity equivalents and inserting escape characters before unsafe JavaScript characters.",
            FunctionName::JUNCTIONIDLIST => "Returns a JunctionIDList based on the provided IDs.",
            FunctionName::LEFT => "Returns the specified number of characters from the beginning of a text string.",
            FunctionName::LEN => "Returns the number of characters in a specified text string.",
            FunctionName::LINKTO => "Returns a relative URL in the form of a link (href and anchor tags) for a custom s-control or Salesforce page.",
            FunctionName::LN => "Returns the natural logarithm of a specified number. Natural logarithms are based on the constant e value of 2.71828182845904.",
            FunctionName::LOG => "Returns the base 10 logarithm of a number.",
            FunctionName::LOWER => "Converts all letters in the specified text string to lowercase. Any characters that are not letters are unaffected by this function. Locale rules are applied if a locale is provided.",
            FunctionName::LPAD => "Inserts characters you specify to the left-side of a text string.",
            FunctionName::MAX => "Returns the highest number from a list of numbers.",
            FunctionName::MCEILING => "Rounds a number up to the nearest integer, towards zero if negative.",
            FunctionName::MFLOOR => "Rounds a number down to the nearest integer, away from zero if negative.",
            FunctionName::MID => "Returns the specified number of characters from the middle of a text string given the starting position.",
            FunctionName::MILLISECOND => "Returns a milliseconds value in the form of a number from 0 through 999.",
            FunctionName::MIN => "Returns the lowest number from a list of numbers.",
            FunctionName::MINUTE => "Returns a minute value in the form of a number from 0 through 60.",
            FunctionName::MOD => "Returns a remainder after a number is divided by a specified divisor.",
            FunctionName::MONTH => "Returns the month, a number from 1 (January) through 12 (December) in number format of a given date.",
            FunctionName::NOT => "Returns FALSE for TRUE and TRUE for FALSE.",
            FunctionName::NOW => "Returns a date/time representing the current moment.",
            FunctionName::NULLVALUE => "Determines if an expression is null (blank) and returns a substitute expression if it is. If the expression is not blank, returns value of the expression.",
            FunctionName::OR => "Determines if expressions are true or false. Returns TRUE if any expression is true. Returns FALSE if all expressions are false.",
            FunctionName::PARENTGROUPVAL => "This function returns the value of a specified parent grouping. A “parent” grouping is any level above the one containing the formula.",
            FunctionName::PREDICT => "Returns an Einstein Discovery prediction for a record based on the specified record ID or for a list of fields and their values.",
            FunctionName::PREVGROUPVAL => "This function returns the value of a specified previous grouping. A “previous” grouping is one that comes before the current grouping in the report.",
            FunctionName::PRIORVALUE => "Returns the previous value of a field.",
            FunctionName::REGEX => "Compares a text field to a regular expression and returns TRUE if there is a match. Otherwise, returns FALSE.",
            FunctionName::REQUIRESCRIPT => "Returns a script tag with URL source that you specify. Use this function when referencing the Lightning Platform AJAX Toolkit or other JavaScript toolkits.",
            FunctionName::REVERSE => "Returns the characters of a source text string in reverse order.",
            FunctionName::RIGHT => "Returns the specified number of characters from the end of a text string.",
            FunctionName::ROUND => "Returns the nearest number to a number you specify, constraining the new number by a specified number of digits.",
            FunctionName::RPAD => "Inserts characters that you specify to the right-side of a text string.",
            FunctionName::SECOND => "Returns a seconds value in the form of a number from 0 through 60.",
            FunctionName::SQRT => "Returns the positive square root of a given number.",
            FunctionName::SUBSTITUTE => "Substitutes new text for old text in a text string.",
            FunctionName::TEXT => "Converts a percent, number, date, date/time, or currency type field into text anywhere formulas are used. Also, converts picklist values to text in approval rules, approval step rules, workflow rules, escalation rules, assignment rules, auto-response rules, validation rules, formula fields, field updates, and custom buttons and links.",
            FunctionName::TIMENOW => "Returns a time value in GMT representing the current moment. Use this function instead of the NOW function if you only want to track time, without a date.",
            FunctionName::TIMEVALUE => "Returns the time value without the date, such as business hours.",
            FunctionName::TODAY => "Returns the current date as a date data type.",
            FunctionName::TRIM => "Removes the spaces and tabs from the beginning and end of a text string.",
            FunctionName::UPPER => "Converts all letters in the specified text string to uppercase.",
            FunctionName::URLENCODE => "Encodes text and merge field values for use in URLs by replacing characters that are illegal in URLs, such as blank spaces, with the code that represent those characters as defined in RFC 3986, Uniform Resource Identifier (URI): Generic Syntax.",
            FunctionName::URLFOR => "Returns a URL for an action, an s-control, a Visualforce page, or a file in a static resource archive. URLFOR is available for use in custom buttons and links, s-controls, and Visualforce pages.",
            FunctionName::VALUE => "Converts a text string to a number.",
            FunctionName::VLOOKUP => "Returns a value by looking up a related value on a custom object similar to the VLOOKUP() Excel function. This function is only available in validation rules.",
            FunctionName::WEEKDAY => "Returns the day of the week for the given date, using 1 for Sunday, 2 for Monday, through 7 for Saturday.",
            FunctionName::YEAR => "Returns the four-digit year in number format of a given date.",
        };
        Some(d)
    }

    /// All function names, in declaration order.
    pub fn all() -> (v: Vec<FunctionName>)
        ensures
            v@ == all_function_names(),
    {
        let mut v: Vec<FunctionName> = Vec::new();
        for i in 0..FUNCTION_COUNT
            invariant
                v@ =~= Seq::new(i as nat, |k: int| function_name_at(k)),
        {
            v.push(name_at(i));
        }
        v
    }
}

/// Every function name occurs in the list of all names.
pub proof fn lemma_all_function_names_complete(f: FunctionName)
    ensures
        0 <= function_index(f) < FUNCTION_COUNT,
        all_function_names()[function_index(f)] == f,
        all_function_names().contains(f),
{
    assert(all_function_names()[function_index(f)] == f);
}

} // verus!
