use topflight::literal::parse_array_of_booleans;
use topflight::literal::parse_array_of_numbers;
use topflight::literal::parse_array_of_strings;
use topflight::literal::parse_boolean;
use topflight::literal::parse_char;
use topflight::literal::parse_number;
use topflight::literal::parse_string;
use topflight::literal::parse_value;
use topflight::literal::ParseError;
use topflight::literal::ParseSuccess;
use topflight::value::NumberBits;
use topflight::value::Value;

fn chars(s: &str) -> Vec<char> {
    s.chars().collect()
}

fn bits(x: f64) -> NumberBits {
    NumberBits(x.to_bits())
}

#[test]
fn test_parse_integer() {
    {
        let input = chars("5");
        let mut pos: usize = 0;
        assert_eq!(
            parse_number::<i64>(&input, &mut pos),
            Ok(ParseSuccess {
                value: 5,
                is_last_value: true
            })
        );
    }
    {
        let input = chars("5)");
        let mut pos: usize = 0;
        assert_eq!(
            parse_number::<i64>(&input, &mut pos),
            Ok(ParseSuccess {
                value: 5,
                is_last_value: true
            })
        );
    }
    {
        let input = chars("5,-5)");
        let mut pos: usize = 0;
        assert_eq!(
            parse_number::<i64>(&input, &mut pos),
            Ok(ParseSuccess {
                value: 5,
                is_last_value: false
            })
        );
        assert_eq!(
            parse_number::<i64>(&input, &mut pos),
            Ok(ParseSuccess {
                value: -5,
                is_last_value: true
            })
        );
    }
    {
        let input = chars("-5,toto");
        let mut pos: usize = 0;
        assert_eq!(
            parse_number::<i64>(&input, &mut pos),
            Ok(ParseSuccess {
                value: -5,
                is_last_value: false
            })
        );
    }
    {
        let input = chars("5 5");
        let mut pos: usize = 0;
        assert_eq!(
            parse_number::<i64>(&input, &mut pos),
            Err(ParseError::NativeParseError)
        );
    }
    {
        let input = chars("lol");
        let mut pos: usize = 0;
        assert_eq!(
            parse_number::<i64>(&input, &mut pos),
            Err(ParseError::NativeParseError)
        );
    }
}

#[test]
fn test_parse_bool() {
    {
        let input = chars("true");
        let mut pos: usize = 0;
        assert_eq!(
            parse_boolean(&input, &mut pos),
            Ok(ParseSuccess {
                value: true,
                is_last_value: true
            })
        );
    }
    {
        let input = chars("true)");
        let mut pos: usize = 0;
        assert_eq!(
            parse_boolean(&input, &mut pos),
            Ok(ParseSuccess {
                value: true,
                is_last_value: true
            })
        );
    }
    {
        let input = chars("false");
        let mut pos: usize = 0;
        assert_eq!(
            parse_boolean(&input, &mut pos),
            Ok(ParseSuccess {
                value: false,
                is_last_value: true
            })
        );
    }
    {
        let input = chars("false,true)");
        let mut pos: usize = 0;
        assert_eq!(
            parse_boolean(&input, &mut pos),
            Ok(ParseSuccess {
                value: false,
                is_last_value: false
            })
        );
        assert_eq!(
            parse_boolean(&input, &mut pos),
            Ok(ParseSuccess {
                value: true,
                is_last_value: true
            })
        );
    }
    {
        let input = chars("lol");
        let mut pos: usize = 0;
        assert_eq!(parse_boolean(&input, &mut pos), Err(ParseError::InvalidFormat));
    }
    {
        let input = chars("truel)");
        let mut pos: usize = 0;
        assert_eq!(parse_boolean(&input, &mut pos), Err(ParseError::InvalidFormat));
    }
    {
        let input = chars("true+)");
        let mut pos: usize = 0;
        assert_eq!(parse_boolean(&input, &mut pos), Err(ParseError::InvalidFormat));
    }
}

#[test]
fn test_parse_char() {
    {
        let input = chars("'a')");
        let mut pos: usize = 0;
        assert_eq!(
            parse_char(&input, &mut pos),
            Ok(ParseSuccess {
                value: 'a',
                is_last_value: true,
            })
        );
    }
    {
        let input = chars("'9')");
        let mut pos: usize = 0;
        assert_eq!(
            parse_char(&input, &mut pos),
            Ok(ParseSuccess {
                value: '9',
                is_last_value: true,
            })
        );
    }
    {
        let input = chars("'\\t')");
        let mut pos: usize = 0;
        assert_eq!(
            parse_char(&input, &mut pos),
            Ok(ParseSuccess {
                value: '\t',
                is_last_value: true,
            })
        );
    }
    {
        let input = chars("'\\'')");
        let mut pos: usize = 0;
        assert_eq!(
            parse_char(&input, &mut pos),
            Ok(ParseSuccess {
                value: '\'',
                is_last_value: true,
            })
        );
    }
    {
        let input = chars("'\\o')");
        let mut pos: usize = 0;
        assert_eq!(parse_char(&input, &mut pos), Err(ParseError::InvalidFormat));
    }
    {
        let input = chars("'\\')");
        let mut pos: usize = 0;
        assert_eq!(parse_char(&input, &mut pos), Err(ParseError::InvalidFormat));
    }
    {
        let input = chars("'a)");
        let mut pos: usize = 0;
        assert_eq!(parse_char(&input, &mut pos), Err(ParseError::InvalidFormat));
    }
    {
        let input = chars("z')");
        let mut pos: usize = 0;
        assert_eq!(parse_char(&input, &mut pos), Err(ParseError::InvalidFormat));
    }
    {
        let input = chars("'')");
        let mut pos: usize = 0;
        assert_eq!(parse_char(&input, &mut pos), Err(ParseError::InvalidFormat));
    }
    {
        let input = chars("");
        let mut pos: usize = 0;
        assert_eq!(parse_char(&input, &mut pos), Err(ParseError::InvalidFormat));
    }
    {
        let input = chars("'");
        let mut pos: usize = 0;
        assert_eq!(parse_char(&input, &mut pos), Err(ParseError::InvalidFormat));
    }
    {
        let input = chars("%");
        let mut pos: usize = 0;
        assert_eq!(parse_char(&input, &mut pos), Err(ParseError::InvalidFormat));
    }
}

#[test]
fn test_parse_string() {
    {
        let input = chars("\"lol\")");
        let mut pos: usize = 0;
        assert_eq!(
            parse_string(&input, &mut pos),
            Ok(ParseSuccess {
                value: String::from("lol"),
                is_last_value: true,
            })
        );
    }
    {
        let input = chars("\"lola\",\"lol\")");
        let mut pos: usize = 0;
        assert_eq!(
            parse_string(&input, &mut pos),
            Ok(ParseSuccess {
                value: String::from("lola"),
                is_last_value: false,
            })
        );
        assert_eq!(
            parse_string(&input, &mut pos),
            Ok(ParseSuccess {
                value: String::from("lol"),
                is_last_value: true,
            })
        );
    }
}

#[test]
fn test_parse_array_of_integers() {
    let input = chars("1,2,3)");
    let mut pos: usize = 0;
    assert_eq!(
        parse_array_of_numbers::<i64>(&input, &mut pos),
        Ok(ParseSuccess {
            value: vec![1, 2, 3],
            is_last_value: true,
        })
    );
}

#[test]
fn test_parse_array_of_numbers() {
    let input = chars("1.1,2.2,3.3)");
    let mut pos: usize = 0;
    assert_eq!(
        parse_array_of_numbers::<NumberBits>(&input, &mut pos),
        Ok(ParseSuccess {
            value: vec![bits(1.1), bits(2.2), bits(3.3)],
            is_last_value: true,
        })
    );
}

#[test]
fn test_parse_array_of_booleans() {
    let input = chars("true,true,false)");
    let mut pos: usize = 0;
    assert_eq!(
        parse_array_of_booleans(&input, &mut pos),
        Ok(ParseSuccess {
            value: vec![true, true, false],
            is_last_value: true,
        })
    );
}

#[test]
fn test_parse_array_of_strings() {
    let input = chars("\"true\",\"true\",\"false\")");
    let mut pos: usize = 0;
    assert_eq!(
        parse_array_of_strings(&input, &mut pos),
        Ok(ParseSuccess {
            value: vec![
                String::from("true"),
                String::from("true"),
                String::from("false")
            ],
            is_last_value: true,
        })
    );
}

#[test]
fn test_parse_integer_value() {
    let input = chars("INTEGER(5)");
    let mut pos: usize = 0;
    assert_eq!(parse_value(&input, &mut pos), Ok(Value::Integer(5)));
}

#[test]
fn test_parse_number_value() {
    let input = chars("NUMBER(1.5)");
    let mut pos: usize = 0;
    assert_eq!(
        parse_value(&input, &mut pos),
        Ok(Value::Number(bits(1.5)))
    );
}

#[test]
fn test_parse_unknown_tag() {
    let input = chars("POINTER(5)");
    let mut pos: usize = 0;
    assert_eq!(parse_value(&input, &mut pos), Err(ParseError::InvalidFormat));
}

#[test]
fn test_parse_unterminated_string_value() {
    let input = chars("STRING(\"oops)");
    let mut pos: usize = 0;
    assert_eq!(parse_value(&input, &mut pos), Err(ParseError::InvalidFormat));
}

#[test]
fn test_parse_bad_escape_in_string() {
    let input = chars("STRING(\"a\\q\"))");
    let mut pos: usize = 0;
    assert_eq!(parse_value(&input, &mut pos), Err(ParseError::InvalidFormat));
}

#[test]
fn test_parse_integer_overflow() {
    let input = chars("INTEGER(9223372036854775808)");
    let mut pos: usize = 0;
    assert_eq!(
        parse_value(&input, &mut pos),
        Err(ParseError::NativeParseError)
    );
    let input = chars("INTEGER(9223372036854775807)");
    let mut pos: usize = 0;
    assert_eq!(
        parse_value(&input, &mut pos),
        Ok(Value::Integer(i64::MAX))
    );
    let input = chars("INTEGER(-9223372036854775808)");
    let mut pos: usize = 0;
    assert_eq!(
        parse_value(&input, &mut pos),
        Ok(Value::Integer(i64::MIN))
    );
}

#[test]
fn test_parse_string_array_value() {
    let input = chars("ARRAY_OF_STRING(\"a\",\"b\")");
    let mut pos: usize = 0;
    assert_eq!(
        parse_value(&input, &mut pos),
        Ok(Value::ArrayOfString(vec![
            String::from("a"),
            String::from("b")
        ]))
    );
}
