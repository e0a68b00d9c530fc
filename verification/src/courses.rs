//! The decoded shape of the active-courses endpoint, and the join of sections
//! to their courses.
//!
//! Sections are consumed in order; each section takes the course its
//! `course_nid` names, and a course can be taken only once, so a second
//! section naming the same course is dropped, as is a section whose course
//! is absent.

use vstd::prelude::*;
use std::collections::HashMap;

verus! {

/// The whole response of the active-courses endpoint.
#[derive(Debug, Clone)]
pub struct ActiveClasses {
    pub response_code: u64,
    pub body: ActiveClassesBody,
}

/// The response body: the courses and what the caller may do.
#[derive(Debug, Clone)]
pub struct ActiveClassesBody {
    pub courses: ActiveClassesCourses,
    pub permissions: ActiveClassesPermissions,
}

/// Course records and section records, still unjoined.
#[derive(Debug, Clone)]
pub struct ActiveClassesCourses {
    pub courses: Vec<ActiveClassesCourse>,
    pub sections: Vec<ActiveClassesSection>,
}

/// One course record.
#[derive(Debug)]
pub struct ActiveClassesCourse {
    pub nid: u64,
    pub course_title: String,
}

/// One section record, referencing its course by `course_nid`.
#[derive(Debug)]
pub struct ActiveClassesSection {
    pub nid: u64,
    pub section_title: String,
    pub course_nid: u64,
    pub logo_img_src: ActiveClassesThumbnails,
}

/// Thumbnail links of a section, when the site provides them.
#[derive(Debug)]
pub struct ActiveClassesThumbnails {
    pub card_thumbnail: Option<String>,
    pub card_thumbnail_2x: Option<String>,
}

impl Clone for ActiveClassesCourse {
    /// An exact copy.
    fn clone(&self) -> (r: Self)
        ensures
            r == *self,
    {
        ActiveClassesCourse { nid: self.nid, course_title: self.course_title.clone() }
    }
}

impl Clone for ActiveClassesThumbnails {
    /// An exact copy.
    fn clone(&self) -> (r: Self)
        ensures
            r == *self,
    {
        ActiveClassesThumbnails {
            card_thumbnail: match &self.card_thumbnail {
                Some(t) => Some(t.clone()),
                None => None,
            },
            card_thumbnail_2x: match &self.card_thumbnail_2x {
                Some(t) => Some(t.clone()),
                None => None,
            },
        }
    }
}

impl Clone for ActiveClassesSection {
    /// An exact copy.
    fn clone(&self) -> (r: Self)
        ensures
            r == *self,
    {
        ActiveClassesSection {
            nid: self.nid,
            section_title: self.section_title.clone(),
            course_nid: self.course_nid,
            logo_img_src: self.logo_img_src.clone(),
        }
    }
}

/// What the caller may do, as the endpoint reports it.
#[derive(Debug, Clone, Copy)]
pub struct ActiveClassesPermissions {
    pub is_verified: bool,
    pub can_browse_courses: bool,
    pub can_join_courses: bool,
    pub can_create_courses: bool,
    pub school_has_grading_periods: bool,
}

/// Joined course/section pairs keyed by the course id.
pub struct ClassesById {
    pub data: HashMap<u64, (ActiveClassesCourse, ActiveClassesSection)>,
}

/// Courses keyed by id; on a repeated id the later record wins, as a keyed
/// collect leaves it.
pub open spec fn course_map(cs: Seq<ActiveClassesCourse>) -> Map<u64, ActiveClassesCourse>
    decreases cs.len(),
{
    if cs.len() == 0 {
        Map::empty()
    } else {
        course_map(cs.drop_last()).insert(cs.last().nid, cs.last())
    }
}

/// The joined pairs, in section order: each section takes its course from
/// `avail` and removes it; sections without an available course are dropped.
pub open spec fn join_pairs(
    avail: Map<u64, ActiveClassesCourse>,
    secs: Seq<ActiveClassesSection>,
) -> Seq<(ActiveClassesCourse, ActiveClassesSection)>
    decreases secs.len(),
{
    if secs.len() == 0 {
        Seq::empty()
    } else if avail.contains_key(secs[0].course_nid) {
        seq![(avail[secs[0].course_nid], secs[0])] + join_pairs(
            avail.remove(secs[0].course_nid),
            secs.drop_first(),
        )
    } else {
        join_pairs(avail, secs.drop_first())
    }
}

/// The joined pairs of a decoded response.
pub open spec fn spec_joined(c: ActiveClassesCourses) -> Seq<
    (ActiveClassesCourse, ActiveClassesSection),
> {
    join_pairs(course_map(c.courses@), c.sections@)
}

/// The pairs as a map keyed by course id; later pairs win, though the join
/// never yields two pairs with one course id.
pub open spec fn map_of_pairs(ps: Seq<(ActiveClassesCourse, ActiveClassesSection)>) -> Map<
    u64,
    (ActiveClassesCourse, ActiveClassesSection),
>
    decreases ps.len(),
{
    if ps.len() == 0 {
        Map::empty()
    } else {
        map_of_pairs(ps.drop_last()).insert(ps.last().1.course_nid, ps.last())
    }
}

/// Join the sections of this response to their courses, in section order.
pub fn join_active(c: &ActiveClassesCourses) -> (r: Vec<
    (ActiveClassesCourse, ActiveClassesSection),
>)
    ensures
        r@ == spec_joined(*c),
{
    let mut avail: HashMap<u64, ActiveClassesCourse> = HashMap::new();
    let mut i: usize = 0;
    proof {
        assert(course_map(c.courses@.take(0)) =~= Map::<u64, ActiveClassesCourse>::empty());
    }
    while i < c.courses.len()
        invariant
            i <= c.courses@.len(),
            avail@ == course_map(c.courses@.take(i as int)),
        decreases c.courses@.len() - i,
    {
        let course = c.courses[i].clone();
        proof {
            assert(c.courses@.take(i + 1).drop_last() =~= c.courses@.take(i as int));
            assert(c.courses@.take(i + 1).last() == c.courses@[i as int]);
        }
        avail.insert(course.nid, course);
        i = i + 1;
    }
    proof {
        assert(c.courses@.take(c.courses@.len() as int) =~= c.courses@);
    }
    let mut out: Vec<(ActiveClassesCourse, ActiveClassesSection)> = Vec::new();
    let mut j: usize = 0;
    let ghost avail0 = avail@;
    proof {
        assert(c.sections@.skip(0) =~= c.sections@);
        assert(out@ + join_pairs(avail@, c.sections@.skip(0)) =~= join_pairs(avail0, c.sections@));
    }
    while j < c.sections.len()
        invariant
            j <= c.sections@.len(),
            join_pairs(avail0, c.sections@) == out@ + join_pairs(avail@, c.sections@.skip(j as int)),
        decreases c.sections@.len() - j,
    {
        let section = c.sections[j].clone();
        let ghost rest = c.sections@.skip(j as int);
        let ghost avail_before = avail@;
        proof {
            assert(rest[0] == c.sections@[j as int]);
            assert(rest.drop_first() =~= c.sections@.skip(j + 1));
        }
        match avail.remove(&section.course_nid) {
            Some(course) => {
                proof {
                    assert(avail_before.contains_key(section.course_nid));
                    assert(course == avail_before[section.course_nid]);
                    assert(avail@ == avail_before.remove(section.course_nid));
                    assert(join_pairs(avail_before, rest) == seq![(course, section)] + join_pairs(
                        avail@,
                        rest.drop_first(),
                    ));
                }
                out.push((course, section));
                proof {
                    assert(out@ + join_pairs(avail@, c.sections@.skip(j + 1)) =~= join_pairs(
                        avail0,
                        c.sections@,
                    ));
                }
            },
            None => {
                proof {
                    assert(!avail_before.contains_key(section.course_nid));
                    assert(avail@ =~= avail_before);
                    assert(join_pairs(avail_before, rest) == join_pairs(
                        avail_before,
                        rest.drop_first(),
                    ));
                    assert(out@ + join_pairs(avail@, c.sections@.skip(j + 1)) =~= join_pairs(
                        avail0,
                        c.sections@,
                    ));
                }
            },
        }
        j = j + 1;
    }
    proof {
        assert(c.sections@.skip(c.sections@.len() as int) =~= Seq::<ActiveClassesSection>::empty());
        assert(out@ + join_pairs(avail@, Seq::<ActiveClassesSection>::empty()) =~= out@);
    }
    out
}

impl ActiveClassesCourses {
    /// The joined pairs keyed by course id.
    pub fn to_by_id(&self) -> (r: ClassesById)
        ensures
            r.data@ == map_of_pairs(spec_joined(*self)),
    {
        let pairs = join_active(self);
        let mut data: HashMap<u64, (ActiveClassesCourse, ActiveClassesSection)> = HashMap::new();
        let mut i: usize = 0;
        proof {
            assert(map_of_pairs(pairs@.take(0)) =~= Map::<
                u64,
                (ActiveClassesCourse, ActiveClassesSection),
            >::empty());
        }
        while i < pairs.len()
            invariant
                i <= pairs@.len(),
                data@ == map_of_pairs(pairs@.take(i as int)),
            decreases pairs@.len() - i,
        {
            let course = pairs[i].0.clone();
            let section = pairs[i].1.clone();
            proof {
                assert(pairs@.take(i + 1).drop_last() =~= pairs@.take(i as int));
                assert(pairs@.take(i + 1).last() == pairs@[i as int]);
            }
            data.insert(section.course_nid, (course, section));
            i = i + 1;
        }
        proof {
            assert(pairs@.take(pairs@.len() as int) =~= pairs@);
        }
        ClassesById { data }
    }
}

} // verus!
