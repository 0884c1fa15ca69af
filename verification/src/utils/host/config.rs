//! Configuration of the host association.
use vstd::prelude::*;

use crate::binary::Double;
use crate::utils::host::associate::AssociationConfig;
use crate::utils::host::catalog::{LS_DR10, NED};

verus! {

#[derive(Debug)]
pub struct HostGalaxyConfig {
    /// Off until a galaxy catalog with shapes is ingested.
    pub enabled: bool,
    /// Cross-match key supplying catalogued diameters.
    pub ned_catalog: String,
    /// Cross-match key supplying fitted shapes.
    pub ls_dr10_catalog: String,
    /// Largest offset still admitted, looser than the cut a filter would apply.
    pub max_dlr: Double,
    /// Floor on the semi-minor axis, arcsec, for degenerate shapes.
    pub min_axis_arcsec: Double,
    /// Axis ratio below which a shape is a fit failure and the row is dropped.
    pub min_axis_ratio: Double,
    /// Axis ratio that a shape between `min_axis_ratio` and this is pinned to.
    pub pinned_axis_ratio: Double,
    pub max_candidates: usize,
    /// Drop rows typed as point sources, which have no extent.
    pub exclude_star_like: bool,
    /// Types with no galaxy extent.
    pub star_type_values: Vec<String>,
    /// Types that are not host galaxies.
    pub ned_excluded_objtypes: Vec<String>,
    /// Reject a marginally resolved row smaller than this, arcsec.
    pub rex_min_shape_r_arcsec: Double,
    /// Reject a marginally resolved row below this signal-to-noise.
    pub rex_min_snr: Double,
    /// Reject a marginally resolved row with at least this fraction of its aperture flux
    /// from neighbours.
    pub rex_max_fracflux: Double,
    /// Isophote the half-light radius is converted to, mag/arcsec^2.
    pub isophote_mag: Double,
}

/// The pattern of 5.
pub const DEFAULT_MAX_DLR: u64 = 0x4014_0000_0000_0000;

/// The pattern of 0.05.
pub const DEFAULT_MIN_AXIS: u64 = 0x3FA9_9999_9999_999A;

/// The pattern of 0.1.
pub const DEFAULT_PINNED_AXIS_RATIO: u64 = 0x3FB9_9999_9999_999A;

/// The pattern of 0.3.
pub const DEFAULT_REX_MIN_SHAPE_R: u64 = 0x3FD3_3333_3333_3333;

/// The pattern of 5.
pub const DEFAULT_REX_MIN_SNR: u64 = 0x4014_0000_0000_0000;

/// The pattern of 0.5.
pub const DEFAULT_REX_MAX_FRACFLUX: u64 = 0x3FE0_0000_0000_0000;

/// The pattern of 25.
pub const DEFAULT_ISOPHOTE_MAG: u64 = 0x4039_0000_0000_0000;

/// The characters of some names.
pub open spec fn names(list: Seq<String>) -> Seq<Seq<char>> {
    list.map_values(|name: String| name@)
}

impl Default for HostGalaxyConfig {
    fn default() -> (config: HostGalaxyConfig)
        ensures
            !config.enabled,
            config.ned_catalog@ == NED@,
            config.ls_dr10_catalog@ == LS_DR10@,
            config.max_dlr.bits == DEFAULT_MAX_DLR,
            config.min_axis_arcsec.bits == DEFAULT_MIN_AXIS,
            config.min_axis_ratio.bits == DEFAULT_MIN_AXIS,
            config.pinned_axis_ratio.bits == DEFAULT_PINNED_AXIS_RATIO,
            config.max_candidates == 10,
            config.exclude_star_like,
            names(config.star_type_values@) == seq!["PSF"@, "DUP"@],
            names(config.ned_excluded_objtypes@) == seq![
                "QSO"@,
                "AbLS"@,
                "EmLS"@,
                "EmObj"@,
                "Q_Lens"@,
                "G_Lens"@,
            ],
            config.rex_min_shape_r_arcsec.bits == DEFAULT_REX_MIN_SHAPE_R,
            config.rex_min_snr.bits == DEFAULT_REX_MIN_SNR,
            config.rex_max_fracflux.bits == DEFAULT_REX_MAX_FRACFLUX,
            config.isophote_mag.bits == DEFAULT_ISOPHOTE_MAG,
    {
        let star_type_values = vec!["PSF".to_string(), "DUP".to_string()];
        let ned_excluded_objtypes = vec![
            "QSO".to_string(),
            "AbLS".to_string(),
            "EmLS".to_string(),
            "EmObj".to_string(),
            "Q_Lens".to_string(),
            "G_Lens".to_string(),
        ];
        assert(names(star_type_values@) =~= seq!["PSF"@, "DUP"@]);
        assert(names(ned_excluded_objtypes@) =~= seq![
            "QSO"@,
            "AbLS"@,
            "EmLS"@,
            "EmObj"@,
            "Q_Lens"@,
            "G_Lens"@,
        ]);
        HostGalaxyConfig {
            enabled: false,
            ned_catalog: NED.to_string(),
            ls_dr10_catalog: LS_DR10.to_string(),
            max_dlr: Double { bits: DEFAULT_MAX_DLR },
            min_axis_arcsec: Double { bits: DEFAULT_MIN_AXIS },
            min_axis_ratio: Double { bits: DEFAULT_MIN_AXIS },
            pinned_axis_ratio: Double { bits: DEFAULT_PINNED_AXIS_RATIO },
            max_candidates: 10,
            exclude_star_like: true,
            star_type_values,
            ned_excluded_objtypes,
            rex_min_shape_r_arcsec: Double { bits: DEFAULT_REX_MIN_SHAPE_R },
            rex_min_snr: Double { bits: DEFAULT_REX_MIN_SNR },
            rex_max_fracflux: Double { bits: DEFAULT_REX_MAX_FRACFLUX },
            isophote_mag: Double { bits: DEFAULT_ISOPHOTE_MAG },
        }
    }
}

impl HostGalaxyConfig {
    pub fn association_config(&self) -> (config: AssociationConfig)
        ensures
            config.max_fractional_offset == self.max_dlr,
            config.min_b_arcsec == self.min_axis_arcsec,
            config.max_candidates == self.max_candidates,
            !config.use_absmag,
    {
        AssociationConfig {
            max_fractional_offset: self.max_dlr,
            min_b_arcsec: self.min_axis_arcsec,
            max_candidates: self.max_candidates,
            use_absmag: false,
        }
    }
}

}
