use vstd::prelude::*;

verus! {

/// One of the eight rotation/flip states an output picture can be shown in.
#[derive(Clone, Copy, Debug, PartialEq, Eq, Structural)]
pub enum Transform {
    Normal,
    Rotate90,
    Rotate180,
    Rotate270,
    Flipped,
    Flipped90,
    Flipped180,
    Flipped270,
}

/// Whether a transform keeps the picture's width horizontal: true for the
/// unrotated and half-turn states, flipped or not.
pub fn is_landscape(transform: Transform) -> (r: bool)
    ensures
        r == spec_is_landscape(transform),
{
    matches!(
        transform,
        Transform::Normal | Transform::Rotate180 | Transform::Flipped | Transform::Flipped180
    )
}

/// Spec twin of [`is_landscape`].
pub open spec fn spec_is_landscape(transform: Transform) -> bool {
    transform == Transform::Normal || transform == Transform::Rotate180 || transform
        == Transform::Flipped || transform == Transform::Flipped180
}

impl Transform {
    /// The textual name of the transform, as the interchange format spells
    /// it.
    pub fn to_text(&self) -> (r: String)
        ensures
            r@ == spec_transform_text(*self),
    {
        match self {
            Transform::Normal => "normal",
            Transform::Rotate90 => "rotate90",
            Transform::Rotate180 => "rotate180",
            Transform::Rotate270 => "rotate270",
            Transform::Flipped => "flipped",
            Transform::Flipped90 => "flipped90",
            Transform::Flipped180 => "flipped180",
            Transform::Flipped270 => "flipped270",
        }.to_owned()
    }

    /// Parses the textual name back; any other text is refused.
    pub fn try_from_text(value: &String) -> (r: Option<Transform>)
        ensures
            r == spec_transform_from_text(value@),
    {
        if *value == "normal".to_owned() {
            Some(Transform::Normal)
        } else if *value == "rotate90".to_owned() {
            Some(Transform::Rotate90)
        } else if *value == "rotate180".to_owned() {
            Some(Transform::Rotate180)
        } else if *value == "rotate270".to_owned() {
            Some(Transform::Rotate270)
        } else if *value == "flipped".to_owned() {
            Some(Transform::Flipped)
        } else if *value == "flipped90".to_owned() {
            Some(Transform::Flipped90)
        } else if *value == "flipped180".to_owned() {
            Some(Transform::Flipped180)
        } else if *value == "flipped270".to_owned() {
            Some(Transform::Flipped270)
        } else {
            None
        }
    }
}

/// The spelling of each transform in the interchange format.
pub open spec fn spec_transform_text(t: Transform) -> Seq<char> {
    match t {
        Transform::Normal => "normal"@,
        Transform::Rotate90 => "rotate90"@,
        Transform::Rotate180 => "rotate180"@,
        Transform::Rotate270 => "rotate270"@,
        Transform::Flipped => "flipped"@,
        Transform::Flipped90 => "flipped90"@,
        Transform::Flipped180 => "flipped180"@,
        Transform::Flipped270 => "flipped270"@,
    }
}

/// The transform a given text names, if any.
pub open spec fn spec_transform_from_text(s: Seq<char>) -> Option<Transform> {
    if s == "normal"@ {
        Some(Transform::Normal)
    } else if s == "rotate90"@ {
        Some(Transform::Rotate90)
    } else if s == "rotate180"@ {
        Some(Transform::Rotate180)
    } else if s == "rotate270"@ {
        Some(Transform::Rotate270)
    } else if s == "flipped"@ {
        Some(Transform::Flipped)
    } else if s == "flipped90"@ {
        Some(Transform::Flipped90)
    } else if s == "flipped180"@ {
        Some(Transform::Flipped180)
    } else if s == "flipped270"@ {
        Some(Transform::Flipped270)
    } else {
        None
    }
}

/// Writing a transform out and parsing it back gives the transform again.
pub proof fn lemma_transform_text_round_trip(t: Transform)
    ensures
        spec_transform_from_text(spec_transform_text(t)) == Some(t),
{
    reveal_strlit("normal");
    reveal_strlit("rotate90");
    reveal_strlit("rotate180");
    reveal_strlit("rotate270");
    reveal_strlit("flipped");
    reveal_strlit("flipped90");
    reveal_strlit("flipped180");
    reveal_strlit("flipped270");
    assert("normal"@.len() == 6);
    assert("rotate90"@.len() == 8);
    assert("rotate180"@.len() == 9);
    assert("rotate270"@.len() == 9);
    assert("flipped"@.len() == 7);
    assert("flipped90"@.len() == 9);
    assert("flipped180"@.len() == 10);
    assert("flipped270"@.len() == 10);
    assert("rotate180"@[6] == '1' && "rotate270"@[6] == '2');
    assert("flipped90"@[0] == 'f' && "rotate180"@[0] == 'r' && "rotate270"@[0] == 'r');
    assert("flipped180"@[7] == '1' && "flipped270"@[7] == '2');
    match t {
        Transform::Normal => {
        },
        Transform::Rotate90 => {
            assert("rotate90"@ != "normal"@);
        },
        Transform::Rotate180 => {
            assert("rotate180"@ != "normal"@);
            assert("rotate180"@ != "rotate90"@);
        },
        Transform::Rotate270 => {
            assert("rotate270"@ != "normal"@);
            assert("rotate270"@ != "rotate90"@);
            assert("rotate270"@ != "rotate180"@);
        },
        Transform::Flipped => {
            assert("flipped"@ != "normal"@);
            assert("flipped"@ != "rotate90"@);
            assert("flipped"@ != "rotate180"@);
            assert("flipped"@ != "rotate270"@);
        },
        Transform::Flipped90 => {
            assert("flipped90"@ != "normal"@);
            assert("flipped90"@ != "rotate90"@);
            assert("flipped90"@ != "rotate180"@);
            assert("flipped90"@ != "rotate270"@);
            assert("flipped90"@ != "flipped"@);
        },
        Transform::Flipped180 => {
            assert("flipped180"@ != "normal"@);
            assert("flipped180"@ != "rotate90"@);
            assert("flipped180"@ != "rotate180"@);
            assert("flipped180"@ != "rotate270"@);
            assert("flipped180"@ != "flipped"@);
            assert("flipped180"@ != "flipped90"@);
        },
        Transform::Flipped270 => {
            assert("flipped270"@ != "normal"@);
            assert("flipped270"@ != "rotate90"@);
            assert("flipped270"@ != "rotate180"@);
            assert("flipped270"@ != "rotate270"@);
            assert("flipped270"@ != "flipped"@);
            assert("flipped270"@ != "flipped90"@);
            assert("flipped270"@ != "flipped180"@);
        },
    }
}

} // verus!
