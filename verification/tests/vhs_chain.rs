use videdit::vhs::{build_vhs_filter_chain, VhsColorProfile};

#[test]
fn vhs_chain_matches_scanline_look_at_40() {
    let chain = build_vhs_filter_chain("[0:v]", "[vout]", 40, true, VhsColorProfile::Faded);
    assert_eq!(
        chain,
        "[0:v]scale=trunc(ih*4/3/2)*2:trunc(ih/2)*2,setsar=1,boxblur=luma_radius=0.79:luma_power=1:chroma_radius=1.19:chroma_power=1,chromashift=cbh=3:crh=-3:edge=smear,rgbashift=rh=2:bh=-2:edge=smear,tblend=all_mode=average:all_opacity=0.19,noise=alls=13:allf=t+u,eq=contrast=1.00:brightness=-0.020:saturation=0.77:gamma=1.05,drawgrid=w=iw:h=2:t=1:c=black@0.14,drawbox=x=0:y='trunc(mod(t*61,ih))':w=iw:h=5:c=white@0.10:t=fill:enable='lt(mod(t,3.1),0.16)',drawbox=x=0:y='trunc(mod(t*83+ih/3,ih))':w=iw:h=2:c=black@0.07:t=fill:enable='lt(mod(t+1.7,4.4),0.12)',perspective=x0=8:y0=0:x1=W+8:y1=0:x2=-4:y2=H:x3=W-4:y3=H:interpolation=linear:eval=init:enable='lt(mod(t,3.1),0.16)',perspective=x0=-8:y0=0:x1=W-8:y1=0:x2=4:y2=H:x3=W+4:y3=H:interpolation=linear:eval=init:enable='lt(mod(t+1.7,4.4),0.12)',vignette=angle=PI/5,format=yuv420p[vout]"
    );
}

#[test]
fn vhs_chain_matches_faded_soft_look_at_40() {
    let chain = build_vhs_filter_chain("[0:v]", "[vout]", 40, false, VhsColorProfile::Faded);
    assert_eq!(
        chain,
        "[0:v]scale=trunc(ih*4/3/2)*2:trunc(ih/2)*2,setsar=1,eq=contrast=0.90:brightness=0.022:saturation=0.65:gamma=1.17,hue=h=-8:s=0.76,boxblur=luma_radius=1.79:luma_power=1:chroma_radius=2.24:chroma_power=1,chromashift=cbh=3:crh=-3:cbv=1:crv=-1:edge=smear,lagfun=decay=0.92,noise=alls=5:allf=t:all_seed=37,drawbox=x=0:y='trunc(mod(t*61,ih))':w=iw:h=5:c=white@0.10:t=fill:enable='lt(mod(t,3.1),0.16)',drawbox=x=0:y='trunc(mod(t*83+ih/3,ih))':w=iw:h=2:c=black@0.07:t=fill:enable='lt(mod(t+1.7,4.4),0.12)',perspective=x0=8:y0=0:x1=W+8:y1=0:x2=-4:y2=H:x3=W-4:y3=H:interpolation=linear:eval=init:enable='lt(mod(t,3.1),0.16)',perspective=x0=-8:y0=0:x1=W-8:y1=0:x2=4:y2=H:x3=W+4:y3=H:interpolation=linear:eval=init:enable='lt(mod(t+1.7,4.4),0.12)',format=rgba,rgbashift=rh=2:bh=-2:rv=1:bv=-1:edge=smear,boxblur=luma_radius=0.80:luma_power=1:chroma_radius=0.80:chroma_power=1,eq=contrast=0.85:brightness=0.013:saturation=0.63:gamma=1.13,vignette=angle=PI/4,format=yuv420p[vout]"
    );
}

#[test]
fn vhs_chain_matches_preserved_soft_look_at_40() {
    let chain = build_vhs_filter_chain("[0:v]", "[vout]", 40, false, VhsColorProfile::Preserved);
    assert_eq!(
        chain,
        "[0:v]scale=trunc(ih*4/3/2)*2:trunc(ih/2)*2,setsar=1,eq=contrast=0.97:brightness=0.015:saturation=0.78:gamma=1.07,hue=h=-8:s=0.92,boxblur=luma_radius=1.79:luma_power=1:chroma_radius=2.24:chroma_power=1,chromashift=cbh=3:crh=-3:cbv=1:crv=-1:edge=smear,lagfun=decay=0.92,noise=alls=5:allf=t:all_seed=37,drawbox=x=0:y='trunc(mod(t*61,ih))':w=iw:h=5:c=white@0.10:t=fill:enable='lt(mod(t,3.1),0.16)',drawbox=x=0:y='trunc(mod(t*83+ih/3,ih))':w=iw:h=2:c=black@0.07:t=fill:enable='lt(mod(t+1.7,4.4),0.12)',perspective=x0=8:y0=0:x1=W+8:y1=0:x2=-4:y2=H:x3=W-4:y3=H:interpolation=linear:eval=init:enable='lt(mod(t,3.1),0.16)',perspective=x0=-8:y0=0:x1=W-8:y1=0:x2=4:y2=H:x3=W+4:y3=H:interpolation=linear:eval=init:enable='lt(mod(t+1.7,4.4),0.12)',format=rgba,rgbashift=rh=2:bh=-2:rv=1:bv=-1:edge=smear,boxblur=luma_radius=0.80:luma_power=1:chroma_radius=0.80:chroma_power=1,eq=contrast=0.94:brightness=0.008:saturation=0.82:gamma=1.05,vignette=angle=PI/4,format=yuv420p[vout]"
    );
}

#[test]
fn vhs_chain_matches_full_damage_scanline_look() {
    let chain = build_vhs_filter_chain("[0:v]", "[vout]", 100, true, VhsColorProfile::Faded);
    assert_eq!(
        chain,
        "[0:v]scale=trunc(ih*4/3/2)*2:trunc(ih/2)*2,setsar=1,boxblur=luma_radius=1.45:luma_power=1:chroma_radius=1.85:chroma_power=1,chromashift=cbh=6:crh=-6:edge=smear,rgbashift=rh=4:bh=-4:edge=smear,tblend=all_mode=average:all_opacity=0.32,noise=alls=25:allf=t+u,eq=contrast=0.88:brightness=-0.035:saturation=0.60:gamma=1.10,drawgrid=w=iw:h=2:t=1:c=black@0.24,drawbox=x=0:y='trunc(mod(t*61,ih))':w=iw:h=10:c=white@0.18:t=fill:enable='lt(mod(t,3.1),0.16)',drawbox=x=0:y='trunc(mod(t*83+ih/3,ih))':w=iw:h=5:c=black@0.13:t=fill:enable='lt(mod(t+1.7,4.4),0.12)',perspective=x0=12:y0=0:x1=W+12:y1=0:x2=-6:y2=H:x3=W-6:y3=H:interpolation=linear:eval=init:enable='lt(mod(t,3.1),0.16)',perspective=x0=-12:y0=0:x1=W-12:y1=0:x2=6:y2=H:x3=W+6:y3=H:interpolation=linear:eval=init:enable='lt(mod(t+1.7,4.4),0.12)',vignette=angle=PI/5,format=yuv420p[vout]"
    );
}

#[test]
fn vhs_chain_from_subtitled_input_matches_preserved_look_at_60() {
    let chain = build_vhs_filter_chain("[vsub]", "[vout]", 60, false, VhsColorProfile::Preserved);
    assert_eq!(
        chain,
        "[vsub]scale=trunc(ih*4/3/2)*2:trunc(ih/2)*2,setsar=1,eq=contrast=0.96:brightness=0.015:saturation=0.76:gamma=1.08,hue=h=-8:s=0.90,boxblur=luma_radius=2.01:luma_power=1:chroma_radius=2.46:chroma_power=1,chromashift=cbh=4:crh=-4:cbv=1:crv=-1:edge=smear,lagfun=decay=0.93,noise=alls=6:allf=t:all_seed=37,drawbox=x=0:y='trunc(mod(t*61,ih))':w=iw:h=7:c=white@0.13:t=fill:enable='lt(mod(t,3.1),0.16)',drawbox=x=0:y='trunc(mod(t*83+ih/3,ih))':w=iw:h=3:c=black@0.09:t=fill:enable='lt(mod(t+1.7,4.4),0.12)',perspective=x0=10:y0=0:x1=W+10:y1=0:x2=-5:y2=H:x3=W-5:y3=H:interpolation=linear:eval=init:enable='lt(mod(t,3.1),0.16)',perspective=x0=-10:y0=0:x1=W-10:y1=0:x2=5:y2=H:x3=W+5:y3=H:interpolation=linear:eval=init:enable='lt(mod(t+1.7,4.4),0.12)',format=rgba,rgbashift=rh=3:bh=-3:rv=1:bv=-1:edge=smear,boxblur=luma_radius=0.80:luma_power=1:chroma_radius=0.80:chroma_power=1,eq=contrast=0.94:brightness=0.008:saturation=0.80:gamma=1.06,vignette=angle=PI/4,format=yuv420p[vout]"
    );
}

