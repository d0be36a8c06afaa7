//! Turning a D&D Beyond character into a creature: its hit points, armor
//! class, and a description from its ancestry and classes.

use vstd::prelude::*;

use crate::models::creature::Creature;
use crate::text::{i32_to_string, joined, push_char, signed_decimal};

verus! {

/// A D&D Beyond character identifier.
#[derive(Clone, Debug, Eq, PartialEq)]
pub struct CharacterId(pub u64);

/// The character service's answer.
#[derive(Debug)]
pub struct CharacterResponse {
    pub success: bool,
    pub data: CharacterData,
}

/// The parts of a character the tracker uses.
#[derive(Debug)]
pub struct CharacterData {
    pub name: String,
    pub base_hit_points: i32,
    pub bonus_hit_points: Option<i32>,
    pub override_hit_points: Option<i32>,
    pub armor_class: Option<i32>,
    pub race: Option<Race>,
    pub classes: Vec<Class>,
}

#[derive(Debug)]
pub struct Race {
    pub full_name: String,
}

#[derive(Debug)]
pub struct Class {
    pub level: i32,
    pub definition: ClassDefinition,
}

#[derive(Debug)]
pub struct ClassDefinition {
    pub name: String,
}

/// The character's hit points: the override when there is one, else the
/// base plus the bonus.
pub open spec fn max_hit_points(d: CharacterData) -> int {
    match d.override_hit_points {
        Some(h) => h as int,
        None => d.base_hit_points + match d.bonus_hit_points {
            Some(b) => b as int,
            None => 0,
        },
    }
}

/// The hit points fit in an `i32`.
pub open spec fn hit_points_fit(d: CharacterData) -> bool {
    i32::MIN <= max_hit_points(d) <= i32::MAX
}

/// A class as "<name> <level>".
pub open spec fn class_text(c: Class) -> Seq<char> {
    c.definition.name@ + seq![' '] + signed_decimal(c.level as int)
}

/// The description: the ancestry followed by the classes joined with " / ",
/// either of them alone, or "D&D Beyond character" when there is neither.
pub open spec fn character_description(d: CharacterData) -> Seq<char> {
    let classes = joined(d.classes@.map_values(|c: Class| class_text(c)), " / "@);
    match d.race {
        Some(race) => if d.classes@.len() > 0 {
            race.full_name@ + seq![' '] + classes
        } else {
            race.full_name@
        },
        None => if d.classes@.len() > 0 {
            classes
        } else {
            "D&D Beyond character"@
        },
    }
}

/// The creature for a character: its name, armor class and hit points, no
/// initiative, and the description.
pub open spec fn character_creature(c: Creature, d: CharacterData) -> bool {
    &&& c.id.0 == 0
    &&& c.name@ == d.name@
    &&& c.initiative is None
    &&& c.ac == d.armor_class
    &&& c.health == max_hit_points(d)
    &&& c.max_health == max_hit_points(d)
    &&& c.description@ == character_description(d)
}

impl Class {
    /// The class as "<name> <level>".
    pub fn description(&self) -> (text: String)
        ensures
            text@ == class_text(*self),
    {
        let mut text = self.definition.name.clone();
        push_char(&mut text, ' ');
        let level = i32_to_string(self.level);
        text.append(level.as_str());
        text
    }
}

impl CharacterData {
    /// Whether the hit points fit in an `i32`; `into_creature` asks for it.
    pub fn hit_points_fit(&self) -> (fit: bool)
        ensures
            fit == hit_points_fit(*self),
    {
        match self.override_hit_points {
            Some(_) => true,
            None => {
                let bonus: i64 = match self.bonus_hit_points {
                    Some(b) => b as i64,
                    None => 0,
                };
                let total = self.base_hit_points as i64 + bonus;
                i32::MIN as i64 <= total && total <= i32::MAX as i64
            },
        }
    }

    /// The description from the ancestry and the classes.
    pub fn description(&self) -> (text: String)
        ensures
            text@ == character_description(*self),
    {
        let ghost parts = self.classes@.map_values(|c: Class| class_text(c));
        let mut classes = String::new();
        let mut i: usize = 0;
        while i < self.classes.len()
            invariant
                i <= self.classes.len(),
                parts == self.classes@.map_values(|c: Class| class_text(c)),
                classes@ == joined(parts.take(i as int), " / "@),
            decreases self.classes.len() - i,
        {
            proof {
                reveal_strlit(" / ");
                assert(parts.take(i + 1).drop_last() =~= parts.take(i as int));
                assert(parts.take(i + 1).last() == class_text(self.classes@[i as int]));
            }
            if i > 0 {
                classes.append(" / ");
            } else {
                assert(parts.take(0) =~= Seq::<Seq<char>>::empty());
            }
            let part = self.classes[i].description();
            classes.append(part.as_str());
            i = i + 1;
        }
        assert(parts.take(i as int) =~= parts);
        match &self.race {
            Some(race) => {
                if self.classes.len() > 0 {
                    let mut text = race.full_name.clone();
                    push_char(&mut text, ' ');
                    text.append(classes.as_str());
                    text
                } else {
                    race.full_name.clone()
                }
            },
            None => {
                if self.classes.len() > 0 {
                    classes
                } else {
                    proof {
                        reveal_strlit("D&D Beyond character");
                    }
                    String::from_str("D&D Beyond character")
                }
            },
        }
    }

    /// The creature for this character.
    pub fn into_creature(self) -> (creature: Creature)
        requires
            hit_points_fit(self),
        ensures
            character_creature(creature, self),
    {
        let max_health = match self.override_hit_points {
            Some(h) => h,
            None => self.base_hit_points + match self.bonus_hit_points {
                Some(b) => b,
                None => 0,
            },
        };
        let description = self.description();
        let mut creature = Creature::new(self.name.as_str(), None, self.armor_class, max_health);
        creature.set_description(description);
        creature
    }
}

/// The creature for the service's answer about character `id`, or the error
/// when the service reports failure.
pub fn character_from_response(id: CharacterId, response: CharacterResponse) -> (r: Result<Creature, String>)
    requires
        response.success ==> hit_points_fit(response.data),
    ensures
        match r {
            Ok(c) => response.success && character_creature(c, response.data),
            Err(e) => !response.success && e@ == "D&D Beyond returned an unsuccessful response for character "@
                + crate::text::decimal(id.0 as nat),
        },
{
    if !response.success {
        proof {
            reveal_strlit("D&D Beyond returned an unsuccessful response for character ");
        }
        let mut message = String::from_str("D&D Beyond returned an unsuccessful response for character ");
        crate::text::push_decimal(&mut message, id.0 as u128);
        return Err(message);
    }
    Ok(response.data.into_creature())
}

/// The header that authenticates a request for a private character sheet,
/// from the three settings a user may give, in this order of preference: a
/// whole `Authorization` value, a bearer token, or a `Cookie` value. An empty
/// setting counts as unset; with none set the request goes anonymously.
pub open spec fn auth_header_of(authorization: Option<Seq<char>>, bearer: Option<Seq<char>>, cookie: Option<
    Seq<char>,
>) -> Option<(Seq<char>, Seq<char>)> {
    if authorization matches Some(a) && a.len() > 0 {
        Some(("Authorization"@, authorization->0))
    } else if bearer matches Some(b) && b.len() > 0 {
        Some(("Authorization"@, "Bearer "@ + bearer->0))
    } else if cookie matches Some(c) && c.len() > 0 {
        Some(("Cookie"@, cookie->0))
    } else {
        None
    }
}

/// The settings' characters, when given.
pub open spec fn setting_view(setting: Option<String>) -> Option<Seq<char>> {
    match setting {
        Some(s) => Some(s@),
        None => None,
    }
}

/// The header name and value that authenticate a character request, if any
/// setting is given: see `auth_header_of`.
pub fn auth_header(authorization: Option<String>, bearer: Option<String>, cookie: Option<String>) -> (header:
    Option<(String, String)>)
    ensures
        match header {
            Some((name, value)) => auth_header_of(
                setting_view(authorization),
                setting_view(bearer),
                setting_view(cookie),
            ) == Some((name@, value@)),
            None => auth_header_of(setting_view(authorization), setting_view(bearer), setting_view(cookie)) is None,
        },
{
    proof {
        reveal_strlit("Authorization");
        reveal_strlit("Bearer ");
        reveal_strlit("Cookie");
    }
    if let Some(a) = authorization {
        if !a.as_str().is_empty() {
            return Some((String::from_str("Authorization"), a));
        }
    }
    if let Some(b) = bearer {
        if !b.as_str().is_empty() {
            let mut value = String::from_str("Bearer ");
            value.append(b.as_str());
            return Some((String::from_str("Authorization"), value));
        }
    }
    if let Some(c) = cookie {
        if !c.as_str().is_empty() {
            return Some((String::from_str("Cookie"), c));
        }
    }
    None
}

} // verus!
