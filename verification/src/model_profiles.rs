//! The model profiles that the host offers, and which of them suits a machine.

use vstd::prelude::*;
use vstd::string::*;
use crate::text::{
    chars_of, decimal, eq_ignore_ascii_case, push_decimal, push_str, same_ignoring_case,
    str_eq, string_of, trim, trimmed,
};

verus! {

/// What the host tells of a model profile.
#[derive(Debug, Clone)]
pub struct ModelProfileMetadata {
    pub profile: String,
    pub label: String,
    pub speed_tier: String,
    pub quality_tier: String,
    pub min_ram_gb: u64,
    pub min_vram_gb: Option<u64>,
    pub english_optimized: bool,
    pub notes: String,
}

/// The mathematical content of a [`ModelProfileMetadata`].
pub struct ProfileModel {
    pub profile: Seq<char>,
    pub label: Seq<char>,
    pub speed_tier: Seq<char>,
    pub quality_tier: Seq<char>,
    pub min_ram_gb: u64,
    pub min_vram_gb: Option<u64>,
    pub english_optimized: bool,
    pub notes: Seq<char>,
}

impl View for ModelProfileMetadata {
    type V = ProfileModel;

    open spec fn view(&self) -> ProfileModel {
        ProfileModel {
            profile: self.profile@,
            label: self.label@,
            speed_tier: self.speed_tier@,
            quality_tier: self.quality_tier@,
            min_ram_gb: self.min_ram_gb,
            min_vram_gb: self.min_vram_gb,
            english_optimized: self.english_optimized,
            notes: self.notes@,
        }
    }
}

/// The contents of a vector of profiles.
pub open spec fn profile_models(list: Seq<ModelProfileMetadata>) -> Seq<ProfileModel> {
    Seq::new(list.len(), |i: int| list[i]@)
}

/// A profile of the catalog.
pub open spec fn catalog_entry(
    profile: Seq<char>,
    label: Seq<char>,
    speed_tier: Seq<char>,
    quality_tier: Seq<char>,
    min_ram_gb: u64,
    min_vram_gb: u64,
    english_optimized: bool,
    notes: Seq<char>,
) -> ProfileModel {
    ProfileModel {
        profile,
        label,
        speed_tier,
        quality_tier,
        min_ram_gb,
        min_vram_gb: Some(min_vram_gb),
        english_optimized,
        notes,
    }
}

/// The profiles that the host offers, the largest first.
pub open spec fn catalog() -> Seq<ProfileModel> {
    seq![
        catalog_entry(
            "large-v3-turbo"@,
            "Large v3 Turbo"@,
            "fast"@,
            "high"@,
            16,
            8,
            false,
            "Best quality/speed balance on modern GPUs."@,
        ),
        catalog_entry(
            "distil-large-v3"@,
            "Distil Large v3"@,
            "fast"@,
            "high"@,
            12,
            6,
            true,
            "Strong English quality with lower latency than full large models."@,
        ),
        catalog_entry(
            "large-v3"@,
            "Large v3"@,
            "medium"@,
            "max"@,
            20,
            10,
            false,
            "Highest local quality, heaviest compute profile."@,
        ),
        catalog_entry(
            "medium.en"@,
            "Medium English"@,
            "medium"@,
            "high"@,
            10,
            4,
            true,
            "High quality English profile for balanced CPU/GPU use."@,
        ),
        catalog_entry(
            "medium"@,
            "Medium"@,
            "medium"@,
            "high"@,
            10,
            4,
            false,
            "Balanced multilingual profile."@,
        ),
        catalog_entry(
            "small.en"@,
            "Small English"@,
            "fast"@,
            "medium"@,
            8,
            3,
            true,
            "Good CPU fallback with solid English quality."@,
        ),
        catalog_entry(
            "small"@,
            "Small"@,
            "fast"@,
            "medium"@,
            8,
            3,
            false,
            "Balanced multilingual fallback."@,
        ),
        catalog_entry(
            "base.en"@,
            "Base English"@,
            "very_fast"@,
            "entry"@,
            6,
            2,
            true,
            "Low-latency English fallback for weaker systems."@,
        ),
        catalog_entry(
            "base"@,
            "Base"@,
            "very_fast"@,
            "entry"@,
            6,
            2,
            false,
            "Low-latency multilingual fallback."@,
        ),
        catalog_entry(
            "tiny.en"@,
            "Tiny English"@,
            "ultra_fast"@,
            "basic"@,
            4,
            1,
            true,
            "Fastest English profile, lowest quality."@,
        ),
        catalog_entry(
            "tiny"@,
            "Tiny"@,
            "ultra_fast"@,
            "basic"@,
            4,
            1,
            false,
            "Fastest multilingual profile, lowest quality."@,
        ),
    ]
}

fn entry(
    profile: &str,
    label: &str,
    speed_tier: &str,
    quality_tier: &str,
    min_ram_gb: u64,
    min_vram_gb: u64,
    english_optimized: bool,
    notes: &str,
) -> (m: ModelProfileMetadata)
    ensures
        m@ == catalog_entry(
            profile@,
            label@,
            speed_tier@,
            quality_tier@,
            min_ram_gb,
            min_vram_gb,
            english_optimized,
            notes@,
        ),
{
    ModelProfileMetadata {
        profile: String::from_str(profile),
        label: String::from_str(label),
        speed_tier: String::from_str(speed_tier),
        quality_tier: String::from_str(quality_tier),
        min_ram_gb,
        min_vram_gb: Some(min_vram_gb),
        english_optimized,
        notes: String::from_str(notes),
    }
}

/// The profiles that the host offers.
pub fn model_profile_catalog() -> (list: Vec<ModelProfileMetadata>)
    ensures
        profile_models(list@) == catalog(),
{
    let mut list: Vec<ModelProfileMetadata> = Vec::new();
    list.push(
        entry(
            "large-v3-turbo",
            "Large v3 Turbo",
            "fast",
            "high",
            16,
            8,
            false,
            "Best quality/speed balance on modern GPUs.",
        ),
    );
    list.push(
        entry(
            "distil-large-v3",
            "Distil Large v3",
            "fast",
            "high",
            12,
            6,
            true,
            "Strong English quality with lower latency than full large models.",
        ),
    );
    list.push(
        entry(
            "large-v3",
            "Large v3",
            "medium",
            "max",
            20,
            10,
            false,
            "Highest local quality, heaviest compute profile.",
        ),
    );
    list.push(
        entry(
            "medium.en",
            "Medium English",
            "medium",
            "high",
            10,
            4,
            true,
            "High quality English profile for balanced CPU/GPU use.",
        ),
    );
    list.push(
        entry("medium", "Medium", "medium", "high", 10, 4, false, "Balanced multilingual profile."),
    );
    list.push(
        entry(
            "small.en",
            "Small English",
            "fast",
            "medium",
            8,
            3,
            true,
            "Good CPU fallback with solid English quality.",
        ),
    );
    list.push(
        entry("small", "Small", "fast", "medium", 8, 3, false, "Balanced multilingual fallback."),
    );
    list.push(
        entry(
            "base.en",
            "Base English",
            "very_fast",
            "entry",
            6,
            2,
            true,
            "Low-latency English fallback for weaker systems.",
        ),
    );
    list.push(
        entry(
            "base",
            "Base",
            "very_fast",
            "entry",
            6,
            2,
            false,
            "Low-latency multilingual fallback.",
        ),
    );
    list.push(
        entry(
            "tiny.en",
            "Tiny English",
            "ultra_fast",
            "basic",
            4,
            1,
            true,
            "Fastest English profile, lowest quality.",
        ),
    );
    list.push(
        entry(
            "tiny",
            "Tiny",
            "ultra_fast",
            "basic",
            4,
            1,
            false,
            "Fastest multilingual profile, lowest quality.",
        ),
    );
    assert(profile_models(list@) =~= catalog());
    list
}

// ---------------------------------------------------------------------------
// Choosing a profile
// ---------------------------------------------------------------------------

/// The texts of a vector of names.
pub open spec fn profile_names(names: Seq<String>) -> Seq<Seq<char>> {
    Seq::new(names.len(), |i: int| names[i]@)
}

/// The profiles that suit a machine, the best first: by the accelerator,
/// the threads of the processor and the memory.
pub open spec fn suited_profiles(cpu_threads: usize, ram_gb: u64, directml_available: bool) -> Seq<
    Seq<char>,
> {
    if directml_available {
        if cpu_threads >= 20 && ram_gb >= 24 {
            seq!["large-v3-turbo"@, "distil-large-v3"@, "large-v3"@]
        } else if cpu_threads >= 12 && ram_gb >= 14 {
            seq!["distil-large-v3"@, "large-v3-turbo"@, "medium.en"@]
        } else {
            seq!["medium.en"@, "small.en"@, "base.en"@]
        }
    } else if cpu_threads >= 16 && ram_gb >= 20 {
        seq!["medium.en"@, "small.en"@, "base.en"@]
    } else if cpu_threads >= 8 && ram_gb >= 10 {
        seq!["small.en"@, "base.en"@, "tiny.en"@]
    } else {
        seq!["base.en"@, "tiny.en"@, "tiny"@]
    }
}

/// The first of `wanted`, from index `from` on, that is available.
pub open spec fn first_available(available: Seq<Seq<char>>, wanted: Seq<Seq<char>>, from: int) -> Option<
    Seq<char>,
>
    decreases wanted.len() - from,
{
    if 0 <= from < wanted.len() {
        if available.contains(wanted[from]) {
            Some(wanted[from])
        } else {
            first_available(available, wanted, from + 1)
        }
    } else {
        None
    }
}

/// The profile to use among those that are installed: the recommended
/// one where it is installed; else the best that suits the machine; else
/// the first that is installed.
pub open spec fn chosen_profile(
    available: Seq<Seq<char>>,
    cpu_threads: usize,
    ram_gb: u64,
    directml_available: bool,
) -> Option<Seq<char>> {
    if available.contains("distil-large-v3"@) {
        Some("distil-large-v3"@)
    } else {
        match first_available(
            available,
            suited_profiles(cpu_threads, ram_gb, directml_available),
            0,
        ) {
            Some(p) => Some(p),
            None => if available.len() > 0 {
                Some(available[0])
            } else {
                None
            },
        }
    }
}

fn is_available(available: &Vec<String>, name: &str) -> (b: bool)
    ensures
        b == profile_names(available@).contains(name@),
{
    let mut i: usize = 0;
    while i < available.len()
        invariant
            i <= available.len(),
            forall|j: int| 0 <= j < i ==> profile_names(available@)[j] != name@,
        decreases available.len() - i,
    {
        if str_eq(available[i].as_str(), name) {
            assert(profile_names(available@)[i as int] == name@);
            return true;
        }
        i += 1;
    }
    false
}

fn suited(cpu_threads: usize, ram_gb: u64, directml_available: bool) -> (v: Vec<&'static str>)
    ensures
        v@.len() == 3,
        Seq::new(3, |i: int| v@[i]@) == suited_profiles(cpu_threads, ram_gb, directml_available),
{
    let (a, b, c) = if directml_available {
        if cpu_threads >= 20 && ram_gb >= 24 {
            ("large-v3-turbo", "distil-large-v3", "large-v3")
        } else if cpu_threads >= 12 && ram_gb >= 14 {
            ("distil-large-v3", "large-v3-turbo", "medium.en")
        } else {
            ("medium.en", "small.en", "base.en")
        }
    } else if cpu_threads >= 16 && ram_gb >= 20 {
        ("medium.en", "small.en", "base.en")
    } else if cpu_threads >= 8 && ram_gb >= 10 {
        ("small.en", "base.en", "tiny.en")
    } else {
        ("base.en", "tiny.en", "tiny")
    };
    let mut v: Vec<&'static str> = Vec::new();
    v.push(a);
    v.push(b);
    v.push(c);
    assert(Seq::new(3, |i: int| v@[i]@) =~= suited_profiles(
        cpu_threads,
        ram_gb,
        directml_available,
    ));
    v
}

/// The profile to use among those that are installed.
pub fn choose_profile(
    available: &Vec<String>,
    cpu_threads: usize,
    ram_gb: u64,
    directml_available: bool,
) -> (r: Option<String>)
    ensures
        crate::text::opt_text(r) == chosen_profile(
            profile_names(available@),
            cpu_threads,
            ram_gb,
            directml_available,
        ),
{
    if is_available(available, "distil-large-v3") {
        return Some(String::from_str("distil-large-v3"));
    }
    let candidates = suited(cpu_threads, ram_gb, directml_available);
    let ghost wanted = suited_profiles(cpu_threads, ram_gb, directml_available);
    let mut i: usize = 0;
    while i < candidates.len()
        invariant
            i <= candidates.len(),
            candidates@.len() == 3,
            !profile_names(available@).contains("distil-large-v3"@),
            wanted == suited_profiles(cpu_threads, ram_gb, directml_available),
            wanted == Seq::new(3, |k: int| candidates@[k]@),
            first_available(profile_names(available@), wanted, 0) == first_available(
                profile_names(available@),
                wanted,
                i as int,
            ),
        decreases candidates.len() - i,
    {
        assert(wanted[i as int] == candidates@[i as int]@);
        if is_available(available, candidates[i]) {
            return Some(String::from_str(candidates[i]));
        }
        i += 1;
    }
    if available.len() > 0 {
        assert(profile_names(available@)[0] == available@[0]@);
        Some(available[0].clone())
    } else {
        None
    }
}

/// What the host recommends for a machine.
#[derive(Debug, Clone)]
pub struct ModelProfileRecommendation {
    pub recommended_profile: String,
    pub suggested_ort_ep: String,
    pub reason: String,
    pub cpu_threads: usize,
    pub system_ram_gb: Option<u64>,
    pub directml_available: bool,
    pub available_profiles: Vec<String>,
}

/// Whether the accelerator can be used: on the platform that has it,
/// unless the networks are set to run on the processor.
pub open spec fn accelerator_available(on_windows: bool, current_ort_ep: Seq<char>) -> bool {
    on_windows && !same_ignoring_case(trimmed(current_ort_ep), "cpu"@)
}

/// The memory as the reason tells it.
pub open spec fn ram_part(system_ram_gb: Option<u64>) -> Seq<char> {
    match system_ram_gb {
        Some(gb) => decimal(gb as nat) + " GB RAM"@,
        None => "unknown RAM"@,
    }
}

/// The reason that goes with a recommendation.
pub open spec fn recommendation_reason(
    cpu_threads: usize,
    system_ram_gb: Option<u64>,
    profile: Seq<char>,
    directml_available: bool,
) -> Seq<char> {
    "Detected "@ + decimal(cpu_threads as nat) + " logical cores and "@ + ram_part(system_ram_gb)
        + "; recommending "@ + profile + if directml_available {
        " for GPU-accelerated dictation."@
    } else {
        " for CPU-first stability."@
    }
}

/// The profiles among which is chosen: those that are installed or, where
/// none is, all of the catalog.
pub open spec fn profile_pool(available: Seq<Seq<char>>) -> Seq<Seq<char>> {
    if available.len() == 0 {
        Seq::new(catalog().len(), |i: int| catalog()[i].profile)
    } else {
        available
    }
}

/// The profile that is recommended for a machine; memory that is not
/// known counts as 16 GB.
pub open spec fn recommended_profile_of(
    available: Seq<Seq<char>>,
    cpu_threads: usize,
    system_ram_gb: Option<u64>,
    directml_available: bool,
) -> Seq<char> {
    match chosen_profile(
        profile_pool(available),
        cpu_threads,
        match system_ram_gb {
            Some(gb) => gb,
            None => 16,
        },
        directml_available,
    ) {
        Some(p) => p,
        None => "distil-large-v3"@,
    }
}

/// The recommendation for a machine with `cpu_threads` logical cores and
/// the given memory, on which the profiles `available_profiles` are installed.
pub fn recommend_model_profile(
    current_ort_ep: &str,
    on_windows: bool,
    cpu_threads: usize,
    system_ram_gb: Option<u64>,
    available_profiles: Vec<String>,
) -> (r: ModelProfileRecommendation)
    ensures
        r.directml_available == accelerator_available(on_windows, current_ort_ep@),
        r.suggested_ort_ep@ == if r.directml_available {
            "directml"@
        } else {
            "cpu"@
        },
        r.recommended_profile@ == recommended_profile_of(
            profile_names(available_profiles@),
            cpu_threads,
            system_ram_gb,
            r.directml_available,
        ),
        r.reason@ == recommendation_reason(
            cpu_threads,
            system_ram_gb,
            r.recommended_profile@,
            r.directml_available,
        ),
        r.cpu_threads == cpu_threads,
        r.system_ram_gb == system_ram_gb,
        r.available_profiles == available_profiles,
{
    let directml_available = on_windows && !eq_ignore_ascii_case(
        &trim(&chars_of(current_ort_ep)),
        &chars_of("cpu"),
    );
    let ram_gb: u64 = match system_ram_gb {
        Some(gb) => gb,
        None => 16,
    };
    let choice = if available_profiles.len() == 0 {
        let all = model_profile_catalog();
        let mut pool: Vec<String> = Vec::new();
        let mut i: usize = 0;
        while i < all.len()
            invariant
                i <= all.len(),
                profile_models(all@) == catalog(),
                pool@.len() == i,
                forall|j: int| 0 <= j < i ==> (#[trigger] pool@[j])@ == catalog()[j].profile,
            decreases all.len() - i,
        {
            assert(profile_models(all@)[i as int] == all@[i as int]@);
            pool.push(all[i].profile.clone());
            i += 1;
        }
        assert(profile_names(pool@) =~= profile_pool(profile_names(available_profiles@)));
        choose_profile(&pool, cpu_threads, ram_gb, directml_available)
    } else {
        choose_profile(&available_profiles, cpu_threads, ram_gb, directml_available)
    };
    let recommended_profile = match choice {
        Some(p) => p,
        None => String::from_str("distil-large-v3"),
    };
    let mut reason: Vec<char> = Vec::new();
    push_str(&mut reason, "Detected ");
    push_decimal(&mut reason, cpu_threads as u64);
    push_str(&mut reason, " logical cores and ");
    match system_ram_gb {
        Some(gb) => {
            push_decimal(&mut reason, gb);
            push_str(&mut reason, " GB RAM");
        },
        None => {
            push_str(&mut reason, "unknown RAM");
        },
    }
    push_str(&mut reason, "; recommending ");
    push_str(&mut reason, recommended_profile.as_str());
    if directml_available {
        push_str(&mut reason, " for GPU-accelerated dictation.");
    } else {
        push_str(&mut reason, " for CPU-first stability.");
    }
    assert(reason@ =~= recommendation_reason(
        cpu_threads,
        system_ram_gb,
        recommended_profile@,
        directml_available,
    ));
    ModelProfileRecommendation {
        recommended_profile,
        suggested_ort_ep: if directml_available {
            String::from_str("directml")
        } else {
            String::from_str("cpu")
        },
        reason: string_of(&reason),
        cpu_threads,
        system_ram_gb,
        directml_available,
        available_profiles,
    }
}

/// Whether the files of a profile are there: in the directory of the
/// profile or, for the profile `small`, also in the directory of all models.
pub open spec fn profile_present(profile: Seq<char>, in_profile_dir: bool, in_models_root: bool) -> bool {
    in_profile_dir || (profile == "small"@ && in_models_root)
}

/// Whether the files of a profile are there.
pub fn model_profile_present(profile: &str, in_profile_dir: bool, in_models_root: bool) -> (b: bool)
    ensures
        b == profile_present(profile@, in_profile_dir, in_models_root),
{
    in_profile_dir || (crate::text::str_eq(profile, "small") && in_models_root)
}

} // verus!
